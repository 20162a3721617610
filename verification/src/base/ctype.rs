//! Character classes on ASCII bytes.
use vstd::prelude::*;

verus! {

/// The byte is a space or a tab.
pub open spec fn spec_is_blank(c: u8) -> bool {
    c == 0x20 || c == 0x09
}

/// The byte is a white-space character (space, `\t`, `\f`, `\n`, `\r`, `\v`).
pub open spec fn spec_is_space(c: u8) -> bool {
    c == 0x20 || c == 0x09 || c == 0x0c || c == 0x0a || c == 0x0d || c == 0x0b
}

/// The byte is an upper-case ASCII letter.
pub open spec fn spec_is_upper(c: u8) -> bool {
    0x41 <= c <= 0x5a
}

/// The byte is a lower-case ASCII letter.
pub open spec fn spec_is_lower(c: u8) -> bool {
    0x61 <= c <= 0x7a
}

/// The byte is a decimal digit.
pub open spec fn spec_is_digit(c: u8) -> bool {
    0x30 <= c <= 0x39
}

/// The byte is one of the punctuation characters ``,./<>?;:"[]{}`-=+*~!@#$%^&()_'``.
pub open spec fn spec_is_punc(c: u8) -> bool {
    ||| (0x21 <= c <= 0x2f)
    ||| (0x3a <= c <= 0x40)
    ||| (0x5b <= c <= 0x60 && c != 0x5c)
    ||| (0x7b <= c <= 0x7e && c != 0x7c)
}

/// The byte is a hexadecimal digit.
pub open spec fn spec_is_xdigit(c: u8) -> bool {
    spec_is_digit(c) || (0x61 <= c <= 0x66) || (0x41 <= c <= 0x46)
}

pub open spec fn spec_is_alpha(c: u8) -> bool {
    spec_is_lower(c) || spec_is_upper(c)
}

pub open spec fn spec_is_alphanum(c: u8) -> bool {
    spec_is_alpha(c) || spec_is_digit(c)
}

pub open spec fn spec_is_graph(c: u8) -> bool {
    spec_is_punc(c) || spec_is_alphanum(c)
}

pub open spec fn spec_is_print(c: u8) -> bool {
    c == 0x20 || spec_is_graph(c)
}

pub open spec fn spec_is_cntrl(c: u8) -> bool {
    c < 0x7f && !spec_is_print(c)
}

pub fn is_blank(c: u8) -> (r: bool)
    ensures
        r == spec_is_blank(c),
{
    c == 0x20 || c == 0x09
}

pub fn is_space(c: u8) -> (r: bool)
    ensures
        r == spec_is_space(c),
{
    c == 0x20 || c == 0x09 || c == 0x0c || c == 0x0a || c == 0x0d || c == 0x0b
}

pub fn is_upper(c: u8) -> (r: bool)
    ensures
        r == spec_is_upper(c),
{
    0x41 <= c && c <= 0x5a
}

pub fn is_lower(c: u8) -> (r: bool)
    ensures
        r == spec_is_lower(c),
{
    0x61 <= c && c <= 0x7a
}

pub fn is_digit(c: u8) -> (r: bool)
    ensures
        r == spec_is_digit(c),
{
    0x30 <= c && c <= 0x39
}

pub fn is_punc(c: u8) -> (r: bool)
    ensures
        r == spec_is_punc(c),
{
    match c {
        0x2c | 0x2e | 0x2f | 0x3c | 0x3e | 0x3f | 0x3b | 0x3a | 0x22 | 0x5b | 0x5d | 0x7b
        | 0x7d | 0x60 | 0x2d | 0x3d | 0x2b | 0x2a | 0x7e | 0x21 | 0x40 | 0x23 | 0x24 | 0x25
        | 0x5e | 0x26 | 0x28 | 0x29 | 0x5f | 0x27 => true,
        _ => false,
    }
}

pub fn is_xdigit(c: u8) -> (r: bool)
    ensures
        r == spec_is_xdigit(c),
{
    is_digit(c) || (0x61 <= c && c <= 0x66) || (0x41 <= c && c <= 0x46)
}

pub fn is_alpha(c: u8) -> (r: bool)
    ensures
        r == spec_is_alpha(c),
{
    is_lower(c) || is_upper(c)
}

pub fn is_alphanum(c: u8) -> (r: bool)
    ensures
        r == spec_is_alphanum(c),
{
    is_alpha(c) || is_digit(c)
}

pub fn is_ascii(c: u8) -> (r: bool)
    ensures
        r == (c < 0x7f),
{
    c < 0x7f
}

pub fn is_graph(c: u8) -> (r: bool)
    ensures
        r == spec_is_graph(c),
{
    is_punc(c) || is_alphanum(c)
}

pub fn is_print(c: u8) -> (r: bool)
    ensures
        r == spec_is_print(c),
{
    c == 0x20 || is_graph(c)
}

pub fn is_cntrl(c: u8) -> (r: bool)
    ensures
        r == spec_is_cntrl(c),
{
    is_ascii(c) && !is_print(c)
}

} // verus!
