//! Parsing numbers and booleans from strings.
//!
//! Spaces and tabs around a number are ignored, as are `_` and `,` between
//! its digits. A `0x`, `0b` or `0o` prefix selects base 16, 2 or 8; base 10
//! is the default. A number too large for its type saturates at the type's
//! largest value. A signed number may start with `-`; a negative number too
//! large in magnitude for its type saturates at the type's smallest value.
use vstd::prelude::*;
use vstd::string::StringSliceAdditionalSpecFns;

verus! {

/// Space or tab: the characters trimmed around a number.
pub open spec fn is_sep(c: u8) -> bool {
    c == 0x20 || c == 0x09
}

/// `s` without its leading spaces and tabs.
pub open spec fn trim_start(s: Seq<u8>) -> Seq<u8>
    decreases s.len(),
{
    if s.len() > 0 && is_sep(s[0]) {
        trim_start(s.subrange(1, s.len() as int))
    } else {
        s
    }
}

/// `s` without its trailing spaces and tabs.
pub open spec fn trim_end(s: Seq<u8>) -> Seq<u8>
    decreases s.len(),
{
    if s.len() > 0 && is_sep(s[s.len() - 1]) {
        trim_end(s.subrange(0, s.len() - 1))
    } else {
        s
    }
}

/// `s` without leading and trailing spaces and tabs.
pub open spec fn trim(s: Seq<u8>) -> Seq<u8> {
    trim_end(trim_start(s))
}

/// The value of the digit `c` in base `radix`, if it is one.
pub open spec fn digit_value(c: u8, radix: u64) -> Option<u64> {
    if 0x30 <= c <= 0x39 && (c - 0x30) < radix {
        Some((c - 0x30) as u64)
    } else if 0x61 <= c <= 0x7a && (c - 0x61 + 10) < radix {
        Some((c - 0x61 + 10) as u64)
    } else if 0x41 <= c <= 0x5a && (c - 0x41 + 10) < radix {
        Some((c - 0x41 + 10) as u64)
    } else {
        None
    }
}

/// `_` and `,` may separate digits.
pub open spec fn is_digit_separator(c: u8) -> bool {
    c == 0x5f || c == 0x2c
}

/// The value of the digits `b` in base `radix`, saturating at `max`; `None`
/// when a character is neither a digit of that base nor a separator.
pub open spec fn parse_digits(b: Seq<u8>, radix: u64, max: u64) -> Option<u64>
    decreases b.len(),
{
    if b.len() == 0 {
        Some(0)
    } else {
        match parse_digits(b.subrange(0, b.len() - 1), radix, max) {
            None => None,
            Some(v) => {
                let c = b[b.len() - 1];
                if is_digit_separator(c) {
                    Some(v)
                } else {
                    match digit_value(c, radix) {
                        None => None,
                        Some(d) => Some(
                            if v * radix + d > max {
                                max
                            } else {
                                (v * radix + d) as u64
                            },
                        ),
                    }
                }
            },
        }
    }
}

/// The base that the start of `n` selects.
pub open spec fn radix_of(n: Seq<u8>) -> u64 {
    if n.len() > 2 && n[0] == 0x30 && n[1] == 0x78 {
        16
    } else if n.len() > 2 && n[0] == 0x30 && n[1] == 0x62 {
        2
    } else if n.len() > 2 && n[0] == 0x30 && n[1] == 0x6f {
        8
    } else {
        10
    }
}

/// The digits of `n` after its base prefix, if any.
pub open spec fn digits_of(n: Seq<u8>) -> Seq<u8> {
    if radix_of(n) == 10 {
        n
    } else {
        n.subrange(2, n.len() as int)
    }
}

/// The unsigned number written in `s`, saturating at `max`.
pub open spec fn spec_parse_unsigned(s: Seq<u8>, max: u64) -> Option<u64> {
    let n = trim(s);
    parse_digits(digits_of(n), radix_of(n), max)
}

/// The signed number written in `s`, for a type whose largest value is `max`
/// and whose smallest is `-max - 1`.
pub open spec fn spec_parse_signed(s: Seq<u8>, max: u64) -> Option<int> {
    let n = trim(s);
    if n.len() == 0 {
        None
    } else {
        let neg = n[0] == 0x2d;
        let v = if neg {
            n.subrange(1, n.len() as int)
        } else {
            n
        };
        match spec_parse_unsigned(v, if neg { (max + 1) as u64 } else { max }) {
            None => None,
            Some(x) => Some(if neg { -(x as int) } else { x as int }),
        }
    }
}

/// A type that can be read from a string.
pub trait FromStr: Sized {
    /// The value that the bytes `s` denote, if any.
    spec fn spec_from_str(s: Seq<u8>) -> Option<Self>;

    fn from_str(s: &str) -> (r: Option<Self>)
        ensures
            r == Self::spec_from_str(s.spec_bytes()),
    ;
}

/// Parse a value of type `A` from `s`.
pub fn from_str<A: FromStr>(s: &str) -> (r: Option<A>)
    ensures
        r == A::spec_from_str(s.spec_bytes()),
{
    A::from_str(s)
}

/// The bounds `lo..hi` of `s` once spaces and tabs are trimmed from both ends.
fn trim_bounds(s: &[u8], lo0: usize, hi0: usize) -> (r: (usize, usize))
    requires
        lo0 <= hi0 <= s@.len(),
    ensures
        lo0 <= r.0 <= r.1 <= hi0,
        s@.subrange(r.0 as int, r.1 as int) == trim(s@.subrange(lo0 as int, hi0 as int)),
{
    let ghost whole = s@.subrange(lo0 as int, hi0 as int);
    let mut lo = lo0;
    while lo < hi0 && (s[lo] == 0x20 || s[lo] == 0x09)
        invariant
            lo0 <= lo <= hi0 <= s@.len(),
            whole == s@.subrange(lo0 as int, hi0 as int),
            trim_start(whole) == trim_start(s@.subrange(lo as int, hi0 as int)),
        decreases hi0 - lo,
    {
        assert(s@.subrange(lo as int, hi0 as int).subrange(1, (hi0 - lo) as int)
            =~= s@.subrange(lo + 1, hi0 as int));
        lo = lo + 1;
    }
    assert(trim_start(s@.subrange(lo as int, hi0 as int)) == s@.subrange(lo as int, hi0 as int));
    let mut hi = hi0;
    while hi > lo && (s[hi - 1] == 0x20 || s[hi - 1] == 0x09)
        invariant
            lo0 <= lo <= hi <= hi0 <= s@.len(),
            trim(whole) == trim_end(s@.subrange(lo as int, hi as int)),
        decreases hi - lo,
    {
        assert(s@.subrange(lo as int, hi as int).subrange(0, (hi - lo) - 1)
            =~= s@.subrange(lo as int, hi - 1));
        hi = hi - 1;
    }
    (lo, hi)
}

/// The value of digit `c` in base `radix`.
fn digit_of(c: u8, radix: u64) -> (r: Option<u64>)
    ensures
        r == digit_value(c, radix),
{
    if 0x30 <= c && c <= 0x39 && ((c - 0x30) as u64) < radix {
        Some((c - 0x30) as u64)
    } else if 0x61 <= c && c <= 0x7a && ((c - 0x61) as u64 + 10) < radix {
        Some((c - 0x61) as u64 + 10)
    } else if 0x41 <= c && c <= 0x5a && ((c - 0x41) as u64 + 10) < radix {
        Some((c - 0x41) as u64 + 10)
    } else {
        None
    }
}

/// Parse the unsigned number in `s[lo0..hi0]`, saturating at `max`.
fn parse_unsigned_range(s: &[u8], lo0: usize, hi0: usize, max: u64) -> (r: Option<u64>)
    requires
        lo0 <= hi0 <= s@.len(),
    ensures
        r == spec_parse_unsigned(s@.subrange(lo0 as int, hi0 as int), max),
{
    let (lo, hi) = trim_bounds(s, lo0, hi0);
    let ghost n = s@.subrange(lo as int, hi as int);
    let mut radix: u64 = 10;
    let mut start = lo;
    if hi - lo > 2 && s[lo] == 0x30 {
        if s[lo + 1] == 0x78 {
            radix = 16;
            start = lo + 2;
        } else if s[lo + 1] == 0x62 {
            radix = 2;
            start = lo + 2;
        } else if s[lo + 1] == 0x6f {
            radix = 8;
            start = lo + 2;
        }
    }
    assert(radix == radix_of(n));
    assert(s@.subrange(start as int, hi as int) =~= digits_of(n));
    let ghost body = s@.subrange(start as int, hi as int);
    let mut val: u64 = 0;
    let mut i = start;
    while i < hi
        invariant
            lo <= start <= i <= hi <= s@.len(),
            body == s@.subrange(start as int, hi as int),
            body == digits_of(n),
            radix == radix_of(n),
            n == trim(s@.subrange(lo0 as int, hi0 as int)),
            val <= max,
            2 <= radix <= 16,
            parse_digits(body.subrange(0, i - start), radix, max) == Some(val),
        decreases hi - i,
    {
        let c = s[i];
        assert(body.subrange(0, i + 1 - start).subrange(0, i - start) =~= body.subrange(0, i - start));
        assert(body.subrange(0, i + 1 - start)[i - start] == c);
        if c == 0x5f || c == 0x2c {
        } else {
            match digit_of(c, radix) {
                None => {
                    proof {
                        lemma_parse_digits_none_extends(body, (i + 1 - start) as int, radix, max);
                    }
                    return None;
                },
                Some(d) => {
                    assert((val as u128) * (radix as u128) <= 0xffff_ffff_ffff_ffffu128 * 16u128)
                        by (nonlinear_arith)
                        requires
                            radix <= 16,
                    ;
                    let wide = (val as u128) * (radix as u128) + (d as u128);
                    if wide > max as u128 {
                        val = max;
                    } else {
                        val = wide as u64;
                    }
                },
            }
        }
        i = i + 1;
    }
    assert(body.subrange(0, hi - start) =~= body);
    Some(val)
}

/// Parse an unsigned number from `s`, saturating at `max`.
fn from_str_common(s: &str, max: u64) -> (r: Option<u64>)
    ensures
        r == spec_parse_unsigned(s.spec_bytes(), max),
{
    let b = s.as_bytes();
    assert(b@.subrange(0, b@.len() as int) =~= b@);
    parse_unsigned_range(b, 0, b.len(), max)
}

/// Parse a signed number from `s` for a type whose largest value is `max`.
fn from_str_signed(s: &str, max: u64) -> (r: Option<(bool, u64)>)
    requires
        max < u64::MAX,
    ensures
        match r {
            None => spec_parse_signed(s.spec_bytes(), max) is None,
            Some((neg, x)) => {
                &&& (if neg { x <= max + 1 } else { x <= max })
                &&& spec_parse_signed(s.spec_bytes(), max) == Some(if neg { -(x as int) } else { x as int })
            },
        },
{
    let b = s.as_bytes();
    let (lo, hi) = trim_bounds(b, 0, b.len());
    assert(b@.subrange(0, b@.len() as int) =~= b@);
    if lo == hi {
        return None;
    }
    let neg = b[lo] == 0x2d;
    let start = if neg { lo + 1 } else { lo };
    assert(b@.subrange(start as int, hi as int) =~= if neg {
        b@.subrange(lo as int, hi as int).subrange(1, (hi - lo) as int)
    } else {
        b@.subrange(lo as int, hi as int)
    });
    let bound = if neg { max + 1 } else { max };
    match parse_unsigned_range(b, start, hi, bound) {
        None => None,
        Some(x) => {
            proof {
                lemma_parse_digits_bounded(
                    digits_of(trim(b@.subrange(start as int, hi as int))),
                    radix_of(trim(b@.subrange(start as int, hi as int))),
                    bound,
                );
            }
            Some((neg, x))
        },
    }
}

/// Once a prefix of the digits fails to parse, every longer prefix fails too.
proof fn lemma_parse_digits_none_extends(b: Seq<u8>, k: int, radix: u64, max: u64)
    requires
        0 <= k <= b.len(),
        parse_digits(b.subrange(0, k), radix, max) is None,
    ensures
        parse_digits(b, radix, max) is None,
    decreases b.len() - k,
{
    if k < b.len() {
        assert(b.subrange(0, k + 1).subrange(0, k) =~= b.subrange(0, k));
        lemma_parse_digits_none_extends(b, k + 1, radix, max);
    } else {
        assert(b.subrange(0, k) =~= b);
    }
}

/// A successful parse never exceeds its saturation bound.
proof fn lemma_parse_digits_bounded(b: Seq<u8>, radix: u64, max: u64)
    ensures
        parse_digits(b, radix, max) matches Some(v) ==> v <= max,
    decreases b.len(),
{
    if b.len() > 0 {
        lemma_parse_digits_bounded(b.subrange(0, b.len() - 1), radix, max);
    }
}

/// The exact value of the digits of `b` in base `radix`, separators skipped
/// (characters that are no digit count as zero).
pub open spec fn digits_value(b: Seq<u8>, radix: u64) -> int
    decreases b.len(),
{
    if b.len() == 0 {
        0
    } else if is_digit_separator(b[b.len() - 1]) {
        digits_value(b.subrange(0, b.len() - 1), radix)
    } else {
        digits_value(b.subrange(0, b.len() - 1), radix) * radix + match digit_value(b[b.len() - 1], radix) {
            Some(d) => d as int,
            None => 0,
        }
    }
}

/// Numbers saturate: digits that parse give their exact value where it is at
/// most the bound, and the bound itself where it is larger.
pub proof fn lemma_parse_saturates(b: Seq<u8>, radix: u64, max: u64)
    requires
        radix >= 1,
    ensures
        parse_digits(b, radix, max) matches Some(v) ==> v == if digits_value(b, radix) <= max {
            digits_value(b, radix)
        } else {
            max as int
        },
    decreases b.len(),
{
    if b.len() > 0 {
        let front = b.subrange(0, b.len() - 1);
        lemma_parse_saturates(front, radix, max);
        lemma_digits_value_nonneg(front, radix);
        let c = b[b.len() - 1];
        if let Some(v) = parse_digits(front, radix, max) {
            if !is_digit_separator(c) {
                if let Some(d) = digit_value(c, radix) {
                    let x = digits_value(front, radix);
                    if x > max {
                        assert(x * radix + d >= max * radix + d) by (nonlinear_arith)
                            requires
                                x > max,
                                radix >= 1,
                                d >= 0,
                        ;
                        assert(max * radix + d >= max) by (nonlinear_arith)
                            requires
                                radix >= 1,
                                d >= 0,
                                max >= 0,
                        ;
                    }
                }
            }
        }
    }
}

/// The exact value of digits is never negative.
proof fn lemma_digits_value_nonneg(b: Seq<u8>, radix: u64)
    ensures
        digits_value(b, radix) >= 0,
    decreases b.len(),
{
    if b.len() > 0 {
        let front = b.subrange(0, b.len() - 1);
        lemma_digits_value_nonneg(front, radix);
        let x = digits_value(front, radix);
        assert(x * radix >= 0) by (nonlinear_arith)
            requires
                x >= 0,
        ;
    }
}

impl FromStr for u8 {
    open spec fn spec_from_str(s: Seq<u8>) -> Option<u8> {
        match spec_parse_unsigned(s, 0xff) {
            None => None,
            Some(v) => Some(v as u8),
        }
    }

    fn from_str(s: &str) -> (r: Option<u8>) {
        match from_str_common(s, 0xff) {
            None => None,
            Some(v) => {
                proof { lemma_parse_bounded(s.spec_bytes(), 0xff); }
                Some(v as u8)
            },
        }
    }
}

impl FromStr for u16 {
    open spec fn spec_from_str(s: Seq<u8>) -> Option<u16> {
        match spec_parse_unsigned(s, 0xffff) {
            None => None,
            Some(v) => Some(v as u16),
        }
    }

    fn from_str(s: &str) -> (r: Option<u16>) {
        match from_str_common(s, 0xffff) {
            None => None,
            Some(v) => {
                proof { lemma_parse_bounded(s.spec_bytes(), 0xffff); }
                Some(v as u16)
            },
        }
    }
}

impl FromStr for u32 {
    open spec fn spec_from_str(s: Seq<u8>) -> Option<u32> {
        match spec_parse_unsigned(s, 0xffff_ffff) {
            None => None,
            Some(v) => Some(v as u32),
        }
    }

    fn from_str(s: &str) -> (r: Option<u32>) {
        match from_str_common(s, 0xffff_ffff) {
            None => None,
            Some(v) => {
                proof { lemma_parse_bounded(s.spec_bytes(), 0xffff_ffff); }
                Some(v as u32)
            },
        }
    }
}

impl FromStr for u64 {
    open spec fn spec_from_str(s: Seq<u8>) -> Option<u64> {
        spec_parse_unsigned(s, 0xffff_ffff_ffff_ffff)
    }

    fn from_str(s: &str) -> (r: Option<u64>) {
        from_str_common(s, 0xffff_ffff_ffff_ffff)
    }
}

impl FromStr for usize {
    open spec fn spec_from_str(s: Seq<u8>) -> Option<usize> {
        match spec_parse_unsigned(s, usize::MAX as u64) {
            None => None,
            Some(v) => Some(v as usize),
        }
    }

    fn from_str(s: &str) -> (r: Option<usize>) {
        match from_str_common(s, usize::MAX as u64) {
            None => None,
            Some(v) => {
                proof { lemma_parse_bounded(s.spec_bytes(), usize::MAX as u64); }
                Some(v as usize)
            },
        }
    }
}

/// The unsigned number written in the bytes `b`, saturating at `max`.
pub fn parse_unsigned_bytes(b: &[u8], max: u64) -> (r: Option<u64>)
    ensures
        r == spec_parse_unsigned(b@, max),
        r matches Some(v) ==> v <= max,
{
    assert(b@.subrange(0, b@.len() as int) =~= b@);
    proof { lemma_parse_bounded(b@, max); }
    parse_unsigned_range(b, 0, b.len(), max)
}

/// A successful unsigned parse never exceeds its saturation bound.
proof fn lemma_parse_bounded(s: Seq<u8>, max: u64)
    ensures
        spec_parse_unsigned(s, max) matches Some(v) ==> v <= max,
{
    let n = trim(s);
    lemma_parse_digits_bounded(digits_of(n), radix_of(n), max);
}

/// The `i64` that a sign and magnitude parsed for a type of largest value `max` denote.
fn signed_value(neg: bool, x: u64, max: u64) -> (r: i64)
    requires
        max <= 0x7fff_ffff_ffff_ffff,
        if neg { x <= max + 1 } else { x <= max },
    ensures
        r == (if neg { -(x as int) } else { x as int }),
{
    if !neg {
        x as i64
    } else if x == max + 1 {
        -(max as i64) - 1
    } else {
        -(x as i64)
    }
}

impl FromStr for i8 {
    open spec fn spec_from_str(s: Seq<u8>) -> Option<i8> {
        match spec_parse_signed(s, 0x7f) {
            None => None,
            Some(v) => Some(v as i8),
        }
    }

    fn from_str(s: &str) -> (r: Option<i8>) {
        match from_str_signed(s, 0x7f) {
            None => None,
            Some((neg, x)) => Some(signed_value(neg, x, 0x7f) as i8),
        }
    }
}

impl FromStr for i16 {
    open spec fn spec_from_str(s: Seq<u8>) -> Option<i16> {
        match spec_parse_signed(s, 0x7fff) {
            None => None,
            Some(v) => Some(v as i16),
        }
    }

    fn from_str(s: &str) -> (r: Option<i16>) {
        match from_str_signed(s, 0x7fff) {
            None => None,
            Some((neg, x)) => Some(signed_value(neg, x, 0x7fff) as i16),
        }
    }
}

impl FromStr for i32 {
    open spec fn spec_from_str(s: Seq<u8>) -> Option<i32> {
        match spec_parse_signed(s, 0x7fff_ffff) {
            None => None,
            Some(v) => Some(v as i32),
        }
    }

    fn from_str(s: &str) -> (r: Option<i32>) {
        match from_str_signed(s, 0x7fff_ffff) {
            None => None,
            Some((neg, x)) => Some(signed_value(neg, x, 0x7fff_ffff) as i32),
        }
    }
}

impl FromStr for i64 {
    open spec fn spec_from_str(s: Seq<u8>) -> Option<i64> {
        match spec_parse_signed(s, 0x7fff_ffff_ffff_ffff) {
            None => None,
            Some(v) => Some(v as i64),
        }
    }

    fn from_str(s: &str) -> (r: Option<i64>) {
        match from_str_signed(s, 0x7fff_ffff_ffff_ffff) {
            None => None,
            Some((neg, x)) => Some(signed_value(neg, x, 0x7fff_ffff_ffff_ffff)),
        }
    }
}

/// The bytes of the word `true`.
pub open spec fn true_bytes() -> Seq<u8> {
    seq![0x74u8, 0x72u8, 0x75u8, 0x65u8]
}

/// The bytes of the word `false`.
pub open spec fn false_bytes() -> Seq<u8> {
    seq![0x66u8, 0x61u8, 0x6cu8, 0x73u8, 0x65u8]
}

impl FromStr for bool {
    open spec fn spec_from_str(s: Seq<u8>) -> Option<bool> {
        if s == true_bytes() {
            Some(true)
        } else if s == false_bytes() {
            Some(false)
        } else {
            None
        }
    }

    fn from_str(s: &str) -> (r: Option<bool>) {
        let b = s.as_bytes();
        if b.len() == 4 && b[0] == 0x74 && b[1] == 0x72 && b[2] == 0x75 && b[3] == 0x65 {
            assert(b@ =~= true_bytes());
            Some(true)
        } else if b.len() == 5 && b[0] == 0x66 && b[1] == 0x61 && b[2] == 0x6c && b[3] == 0x73
            && b[4] == 0x65 {
            assert(b@ =~= false_bytes());
            Some(false)
        } else {
            assert(b@ != true_bytes() && b@ != false_bytes()) by {
                if b@ == true_bytes() {
                    assert(b@.len() == 4);
                }
                if b@ == false_bytes() {
                    assert(b@.len() == 5);
                }
            }
            None
        }
    }
}

} // verus!
