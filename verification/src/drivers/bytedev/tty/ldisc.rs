//! The line discipline: it collects the characters typed at a terminal into
//! lines, lets the user edit the line being typed, and hands complete lines
//! to readers.
//!
//! The characters live in a ring buffer of `LINE_BUF_SIZE` bytes. From the
//! read head to the cooked tail lie the complete ("cooked") lines that readers
//! may take; from the cooked tail to the raw tail lies the line being typed.
//! One cell always stays free, so at most `LINE_BUF_SIZE - 1` characters are
//! held.
use vstd::prelude::*;
use crate::base::devices::RDeviceMut;
use crate::base::errno::KResult;
use crate::drivers::bytedev::tty::TTYLineDiscipline;

verus! {

/// The size of the ring buffer.
pub const LINE_BUF_SIZE: usize = 256;

/// First initialisation stage: nothing to do.
pub fn init_stage1() {
}

/// Second initialisation stage: nothing to do.
pub fn init_stage2() {
}

/// The distance from ring position `a` forward to ring position `b`.
pub open spec fn dist(a: int, b: int) -> int {
    if b >= a {
        b - a
    } else {
        b + 256 - a
    }
}

/// A position past the end of the ring, brought back into it.
pub open spec fn wrap(x: int) -> int {
    if x >= 256 {
        x - 256
    } else {
        x
    }
}

/// The `n` bytes of the ring `buf` that start at position `from`.
pub open spec fn ring(buf: Seq<u8>, from: int, n: int) -> Seq<u8> {
    Seq::new(n as nat, |i: int| buf[wrap(from + i)])
}

/// The characters that end a line: carriage return, line feed and end of
/// transmission (`^D`).
pub open spec fn is_eol(c: u8) -> bool {
    c == 0x0d || c == 0x0a || c == 0x04
}

/// The bytes that show the character `c` on the terminal: nothing for the NUL
/// character, the byte itself for the other ASCII characters, and the UTF-8
/// encoding of the code point `c` for the bytes from 0x80 on.
pub open spec fn char_echo(c: u8) -> Seq<u8> {
    if c == 0 {
        Seq::empty()
    } else if c < 0x80 {
        seq![c]
    } else {
        seq![(0xc0 + c / 64) as u8, (0x80 + c % 64) as u8]
    }
}

/// The bytes that replace the last character shown by `c`: a backspace, then
/// the character (nothing at all for the NUL character).
pub open spec fn del_echo(c: u8) -> Seq<u8> {
    if c == 0 {
        Seq::empty()
    } else {
        seq![0x08u8] + char_echo(c)
    }
}

/// Adding the character `c` to the lines held: appended to the line being
/// typed when there is room, else written over the last character held.
/// Returns the new cooked lines, the new typed line and whether there was room.
pub open spec fn push_spec(cooked: Seq<u8>, raw: Seq<u8>, c: u8) -> (Seq<u8>, Seq<u8>, bool) {
    if cooked.len() + raw.len() < LINE_BUF_SIZE - 1 {
        (cooked, raw.push(c), true)
    } else if raw.len() > 0 {
        (cooked, raw.update(raw.len() - 1, c), false)
    } else {
        (cooked.update(cooked.len() - 1, c), raw, false)
    }
}

/// Four spaces in place of a tab, stopping at the first that finds no room.
/// Returns the new cooked lines, the new typed line and the echo.
pub open spec fn tab_spec(cooked: Seq<u8>, raw: Seq<u8>) -> (Seq<u8>, Seq<u8>, Seq<u8>) {
    let (c1, r1, ok1) = push_spec(cooked, raw, 0x20);
    if !ok1 {
        (c1, r1, seq![0x08u8, 0x20u8])
    } else {
        let (c2, r2, ok2) = push_spec(c1, r1, 0x20);
        if !ok2 {
            (c2, r2, seq![0x20u8])
        } else {
            let (c3, r3, ok3) = push_spec(c2, r2, 0x20);
            if !ok3 {
                (c3, r3, seq![0x20u8, 0x20u8])
            } else {
                let (c4, r4, ok4) = push_spec(c3, r3, 0x20);
                if !ok4 {
                    (c4, r4, seq![0x20u8, 0x20u8, 0x20u8])
                } else {
                    (c4, r4, seq![0x20u8, 0x20u8, 0x20u8, 0x20u8])
                }
            }
        }
    }
}

/// What receiving the typed character `c` does: the new cooked lines, the new
/// typed line and the bytes to echo.
pub open spec fn receive_spec(cooked: Seq<u8>, raw: Seq<u8>, c: u8) -> (Seq<u8>, Seq<u8>, Seq<u8>) {
    if c == 0x7f || c == 0x08 {
        if raw.len() > 0 {
            (cooked, raw.drop_last(), seq![0x08u8, 0x20u8, 0x08u8])
        } else {
            (cooked, raw, Seq::empty())
        }
    } else if c == 0 {
        (cooked, raw, Seq::empty())
    } else if c == 0x09 {
        tab_spec(cooked, raw)
    } else if is_eol(c) {
        let (c1, r1, ok) = push_spec(cooked, raw, c);
        (c1 + r1, Seq::empty(), if ok { char_echo(c) } else { del_echo(c) })
    } else {
        let (c1, r1, ok) = push_spec(cooked, raw, c);
        (c1, r1, if ok { char_echo(c) } else { del_echo(c) })
    }
}

/// How many cooked characters a read into a buffer of `n` bytes takes: up to
/// and including the first end of line, and no more than `n` or than there are.
pub open spec fn read_len(cooked: Seq<u8>, n: nat) -> nat
    decreases n,
{
    if n == 0 || cooked.len() == 0 {
        0
    } else if is_eol(cooked[0]) {
        1
    } else {
        1 + read_len(cooked.subrange(1, cooked.len() as int), (n - 1) as nat)
    }
}

/// What a written character looks like on the terminal.
pub open spec fn process_spec(c: u8) -> Seq<u8> {
    if c == 0x0a || c == 0x0d {
        seq![0x0au8]
    } else if c == 0x09 {
        seq![0x20u8, 0x20u8, 0x20u8, 0x20u8]
    } else if c == 0x7f || c == 0x08 {
        seq![0x08u8, 0x20u8, 0x08u8]
    } else {
        char_echo(c)
    }
}

/// A character that is stored as typed: not NUL, not an erase, not a tab and
/// not an end of line.
pub open spec fn is_plain(c: u8) -> bool {
    c != 0 && c != 0x7f && c != 0x08 && c != 0x09 && !is_eol(c)
}

/// The lines held after receiving the characters `cs` one after the other.
pub open spec fn receive_all(cooked: Seq<u8>, raw: Seq<u8>, cs: Seq<u8>) -> (Seq<u8>, Seq<u8>)
    decreases cs.len(),
{
    if cs.len() == 0 {
        (cooked, raw)
    } else {
        let (c1, r1) = receive_all(cooked, raw, cs.subrange(0, cs.len() - 1));
        let (c2, r2, _e) = receive_spec(c1, r1, cs[cs.len() - 1]);
        (c2, r2)
    }
}

/// Typing plain characters while there is room appends them to the line
/// being typed and leaves the complete lines alone.
pub proof fn lemma_plain_chars_append(cooked: Seq<u8>, raw: Seq<u8>, cs: Seq<u8>)
    requires
        cooked.len() + raw.len() + cs.len() < LINE_BUF_SIZE,
        forall|i: int| 0 <= i < cs.len() ==> is_plain(#[trigger] cs[i]),
    ensures
        receive_all(cooked, raw, cs) == (cooked, raw + cs),
    decreases cs.len(),
{
    if cs.len() > 0 {
        let init = cs.subrange(0, cs.len() - 1);
        lemma_plain_chars_append(cooked, raw, init);
        assert((raw + init).push(cs[cs.len() - 1]) =~= raw + cs);
    } else {
        assert(raw + cs =~= raw);
    }
}

/// Typing an end of line while there is room makes the typed line, ended by
/// that character, the last complete line, and starts an empty typed line.
pub proof fn lemma_eol_commits_line(cooked: Seq<u8>, raw: Seq<u8>, c: u8)
    requires
        is_eol(c),
        cooked.len() + raw.len() < LINE_BUF_SIZE - 1,
    ensures
        receive_spec(cooked, raw, c) == (cooked + raw.push(c), Seq::<u8>::empty(), seq![c]),
{
    assert(char_echo(c) =~= seq![c]);
}

/// Erasing right after typing a plain character, while there is room, gives
/// back the lines held before and echoes a backspace, a space and a backspace.
pub proof fn lemma_erase_undoes_plain(cooked: Seq<u8>, raw: Seq<u8>, c: u8, e: u8)
    requires
        is_plain(c),
        e == 0x7f || e == 0x08,
        cooked.len() + raw.len() < LINE_BUF_SIZE - 1,
    ensures
        ({
            let (c1, r1, _e1) = receive_spec(cooked, raw, c);
            receive_spec(c1, r1, e) == (cooked, raw, seq![0x08u8, 0x20u8, 0x08u8])
        }),
{
    assert(raw.push(c).drop_last() =~= raw);
}

/// A read takes a whole line when the buffer has room for it: the characters
/// before the first end of line, and that end of line.
pub proof fn lemma_read_takes_line(line: Seq<u8>, c: u8, rest: Seq<u8>, n: nat)
    requires
        forall|i: int| 0 <= i < line.len() ==> !is_eol(#[trigger] line[i]),
        is_eol(c),
        line.len() < n,
    ensures
        read_len(line.push(c) + rest, n) == line.len() + 1,
    decreases line.len(),
{
    let s = line.push(c) + rest;
    if line.len() > 0 {
        let tail = line.subrange(1, line.len() as int);
        assert(s.subrange(1, s.len() as int) =~= tail.push(c) + rest);
        lemma_read_takes_line(tail, c, rest, (n - 1) as nat);
    }
}

/// When every complete line ends with an end of line and the buffer is not
/// full, receiving any character keeps it so.
pub proof fn lemma_cooked_ends_with_eol(cooked: Seq<u8>, raw: Seq<u8>, c: u8)
    requires
        cooked.len() == 0 || is_eol(cooked[cooked.len() - 1]),
        cooked.len() + raw.len() < LINE_BUF_SIZE - 1,
    ensures
        ({
            let (c1, _r1, _e1) = receive_spec(cooked, raw, c);
            c1.len() == 0 || is_eol(c1[c1.len() - 1])
        }),
{
}

/// The line discipline of one terminal.
pub struct LineDiscipline {
    buf: [u8; 256],
    rhead: usize,
    raw_tail: usize,
    ckd_tail: usize,
}

impl LineDiscipline {
    #[verifier::type_invariant]
    spec fn inv(self) -> bool {
        &&& self.buf@.len() == LINE_BUF_SIZE
        &&& self.rhead < LINE_BUF_SIZE
        &&& self.raw_tail < LINE_BUF_SIZE
        &&& self.ckd_tail < LINE_BUF_SIZE
        &&& dist(self.rhead as int, self.ckd_tail as int) + dist(
            self.ckd_tail as int,
            self.raw_tail as int,
        ) < LINE_BUF_SIZE
    }

    /// The complete lines that readers may take.
    pub closed spec fn cooked(self) -> Seq<u8> {
        ring(self.buf@, self.rhead as int, dist(self.rhead as int, self.ckd_tail as int))
    }

    /// The line being typed.
    pub closed spec fn raw(self) -> Seq<u8> {
        ring(self.buf@, self.ckd_tail as int, dist(self.ckd_tail as int, self.raw_tail as int))
    }

    /// A line discipline holding nothing.
    pub fn create() -> (r: LineDiscipline)
        ensures
            r.cooked() == Seq::<u8>::empty(),
            r.raw() == Seq::<u8>::empty(),
    {
        let r = LineDiscipline { buf: [0u8; 256], rhead: 0, raw_tail: 0, ckd_tail: 0 };
        assert(r.cooked() =~= Seq::<u8>::empty());
        assert(r.raw() =~= Seq::<u8>::empty());
        r
    }

    /// Whether a complete line waits to be read; a reader sleeps while not.
    pub fn has_cooked(&self) -> (r: bool)
        ensures
            r == (self.cooked().len() > 0),
    {
        proof {
            use_type_invariant(self);
        }
        self.rhead != self.ckd_tail
    }

    /// The ring position after `x`.
    fn next_pos(x: usize) -> (r: usize)
        requires
            x < LINE_BUF_SIZE,
        ensures
            r == wrap(x + 1),
    {
        (x + 1) % LINE_BUF_SIZE
    }

    /// The ring position before `x`.
    fn prev_pos(x: usize) -> (r: usize)
        requires
            x < LINE_BUF_SIZE,
        ensures
            r == wrap(x + 255),
    {
        if x == 0 {
            LINE_BUF_SIZE - 1
        } else {
            x - 1
        }
    }

    /// The position after the raw tail, unless it is the read head (the
    /// buffer is full).
    fn cbuf_next(&self) -> (r: Option<usize>)
        ensures
            match r {
                None => self.cooked().len() + self.raw().len() == LINE_BUF_SIZE - 1,
                Some(v) => self.cooked().len() + self.raw().len() < LINE_BUF_SIZE - 1 && v == wrap(
                    self.raw_tail + 1,
                ),
            },
    {
        proof {
            use_type_invariant(self);
        }
        let next = Self::next_pos(self.raw_tail);
        if next == self.rhead {
            None
        } else {
            Some(next)
        }
    }

    /// The position before the raw tail, unless the line being typed is empty.
    fn cbuf_prev(&self) -> (r: Option<usize>)
        ensures
            match r {
                None => self.raw().len() == 0,
                Some(v) => self.raw().len() > 0 && v == wrap(self.raw_tail + 255),
            },
    {
        proof {
            use_type_invariant(self);
        }
        let prev = Self::prev_pos(self.raw_tail);
        if self.raw_tail == self.ckd_tail {
            None
        } else {
            Some(prev)
        }
    }

    /// Add `chr` to the lines held; returns whether there was room for it.
    fn push_char(&mut self, chr: u8) -> (r: bool)
        ensures
            (final(self).cooked(), final(self).raw(), r) == push_spec(
                old(self).cooked(),
                old(self).raw(),
                chr,
            ),
            final(self).ckd_tail == old(self).ckd_tail,
    {
        proof {
            use_type_invariant(&*self);
        }
        let ghost c0 = self.cooked();
        let ghost r0 = self.raw();
        match self.cbuf_next() {
            None => {
                let p = Self::prev_pos(self.raw_tail);
                let mut b = self.buf;
                b[p] = chr;
                self.buf = b;
                proof {
                    if r0.len() > 0 {
                        assert(self.cooked() =~= c0);
                        assert(self.raw() =~= r0.update(r0.len() - 1, chr));
                    } else {
                        assert(self.cooked() =~= c0.update(c0.len() - 1, chr));
                        assert(self.raw() =~= r0);
                    }
                }
                false
            },
            Some(v) => {
                let mut b = self.buf;
                b[self.raw_tail] = chr;
                self.buf = b;
                self.raw_tail = v;
                assert(self.cooked() =~= c0);
                assert(self.raw() =~= r0.push(chr));
                true
            },
        }
    }

    /// Take the first cooked character.
    fn pop_cooked(&mut self) -> (r: u8)
        requires
            old(self).cooked().len() > 0,
        ensures
            r == old(self).cooked()[0],
            final(self).cooked() == old(self).cooked().subrange(1, old(self).cooked().len() as int),
            final(self).raw() == old(self).raw(),
    {
        proof {
            use_type_invariant(&*self);
        }
        let ghost c0 = self.cooked();
        let ghost r0 = self.raw();
        let c = self.buf[self.rhead];
        self.rhead = Self::next_pos(self.rhead);
        assert(self.cooked() =~= c0.subrange(1, c0.len() as int));
        assert(self.raw() =~= r0);
        c
    }
}

/// The echo bytes of `chr` as a vector.
fn char_echo_vec(chr: u8) -> (r: Vec<u8>)
    ensures
        r@ == char_echo(chr),
{
    let mut v: Vec<u8> = Vec::new();
    if chr == 0 {
    } else if chr < 0x80 {
        v.push(chr);
    } else {
        v.push(0xc0 + chr / 64);
        v.push(0x80 + chr % 64);
    }
    assert(v@ =~= char_echo(chr));
    v
}

/// The erasing echo bytes of `chr` as a vector.
fn del_echo_vec(chr: u8) -> (r: Vec<u8>)
    ensures
        r@ == del_echo(chr),
{
    if chr == 0 {
        let v: Vec<u8> = Vec::new();
        assert(v@ =~= del_echo(chr));
        v
    } else {
        let mut v: Vec<u8> = Vec::new();
        v.push(0x08);
        let mut e = char_echo_vec(chr);
        v.append(&mut e);
        assert(v@ =~= del_echo(chr));
        v
    }
}

impl RDeviceMut<u8> for LineDiscipline {
    open spec fn readable(&self) -> bool {
        true
    }

    /// Move cooked characters into `b`, up to and including the first end of
    /// line. Returns how many were moved; nothing when no line is complete.
    fn read_from(&mut self, offset: usize, b: &mut [u8]) -> (r: KResult<usize>)
        ensures
            r == Ok::<usize, crate::base::errno::Errno>(
                read_len(old(self).cooked(), old(b)@.len()) as usize,
            ),
            final(b)@.len() == old(b)@.len(),
            final(b)@.subrange(0, read_len(old(self).cooked(), old(b)@.len()) as int)
                == old(self).cooked().subrange(0, read_len(old(self).cooked(), old(b)@.len()) as int),
            final(b)@.subrange(read_len(old(self).cooked(), old(b)@.len()) as int, old(b)@.len() as int)
                == old(b)@.subrange(read_len(old(self).cooked(), old(b)@.len()) as int, old(b)@.len() as int),
            final(self).cooked() == old(self).cooked().subrange(
                read_len(old(self).cooked(), old(b)@.len()) as int,
                old(self).cooked().len() as int,
            ),
            final(self).raw() == old(self).raw(),
    {
        let ghost c0 = self.cooked();
        let ghost b0 = b@;
        let n = b.len();
        let mut i: usize = 0;
        let mut done = false;
        while i < n && !done && self.has_cooked()
            invariant
                n == b@.len(),
                n == b0.len(),
                i <= n,
                i <= c0.len(),
                done ==> read_len(c0, n as nat) == i,
                !done ==> read_len(c0, n as nat) == i + read_len(self.cooked(), (n - i) as nat),
                self.cooked() == c0.subrange(i as int, c0.len() as int),
                self.raw() == old(self).raw(),
                b@.subrange(0, i as int) == c0.subrange(0, i as int),
                b@.subrange(i as int, n as int) == b0.subrange(i as int, n as int),
            decreases n - i,
        {
            let ghost cb = self.cooked();
            let ghost bprev = b@;
            let c = self.pop_cooked();
            b[i] = c;
            proof {
                assert(c == c0[i as int]);
                assert forall|j: int| i + 1 <= j < n implies b@[j] == b0[j] by {
                    assert(bprev.subrange(i as int, n as int)[j - i] == b0.subrange(i as int, n as int)[j - i]);
                }
                assert(cb.len() > 0 && cb[0] == c);
                if is_eol(c) {
                    assert(read_len(cb, (n - i) as nat) == 1);
                } else {
                    assert(cb.subrange(1, cb.len() as int) =~= self.cooked());
                    assert(read_len(cb, (n - i) as nat) == 1 + read_len(self.cooked(), (n - i - 1) as nat));
                }
                assert(b@.subrange(0, i + 1) =~= c0.subrange(0, i + 1));
                assert(b@.subrange(i + 1, n as int) =~= b0.subrange(i + 1, n as int));
                assert(self.cooked() =~= c0.subrange(i + 1, c0.len() as int));
            }
            if c == 0x0d || c == 0x0a || c == 0x04 {
                done = true;
            }
            i = i + 1;
        }
        Ok(i)
    }
}

impl TTYLineDiscipline for LineDiscipline {
    /// Store the received character `chr` and return the bytes to echo.
    fn recieve_char(&mut self, chr: u8) -> (r: Vec<u8>)
        ensures
            (final(self).cooked(), final(self).raw(), r@) == receive_spec(
                old(self).cooked(),
                old(self).raw(),
                chr,
            ),
    {
        proof {
            use_type_invariant(&*self);
        }
        let ghost c0 = self.cooked();
        let ghost r0 = self.raw();
        if chr == 0x7f || chr == 0x08 {
            match self.cbuf_prev() {
                Some(prev) => {
                    self.raw_tail = prev;
                    assert(self.cooked() =~= c0);
                    assert(self.raw() =~= r0.drop_last());
                    let mut v: Vec<u8> = Vec::new();
                    v.push(0x08);
                    v.push(0x20);
                    v.push(0x08);
                    assert(v@ =~= seq![0x08u8, 0x20u8, 0x08u8]);
                    v
                },
                None => {
                    let v: Vec<u8> = Vec::new();
                    assert(v@ =~= Seq::<u8>::empty());
                    v
                },
            }
        } else if chr == 0 {
            let v: Vec<u8> = Vec::new();
            assert(v@ =~= Seq::<u8>::empty());
            v
        } else if chr == 0x09 {
            let mut v: Vec<u8> = Vec::new();
            if !self.push_char(0x20) {
                v.push(0x08);
                v.push(0x20);
                assert(v@ =~= seq![0x08u8, 0x20u8]);
            } else if !self.push_char(0x20) {
                v.push(0x20);
                assert(v@ =~= seq![0x20u8]);
            } else if !self.push_char(0x20) {
                v.push(0x20);
                v.push(0x20);
                assert(v@ =~= seq![0x20u8, 0x20u8]);
            } else if !self.push_char(0x20) {
                v.push(0x20);
                v.push(0x20);
                v.push(0x20);
                assert(v@ =~= seq![0x20u8, 0x20u8, 0x20u8]);
            } else {
                v.push(0x20);
                v.push(0x20);
                v.push(0x20);
                v.push(0x20);
                assert(v@ =~= seq![0x20u8, 0x20u8, 0x20u8, 0x20u8]);
            }
            v
        } else if chr == 0x0d || chr == 0x0a || chr == 0x04 {
            let res = self.push_char(chr);
            let ghost c1 = self.cooked();
            let ghost r1 = self.raw();
            proof {
                use_type_invariant(&*self);
            }
            self.ckd_tail = self.raw_tail;
            assert(self.cooked() =~= c1 + r1);
            assert(self.raw() =~= Seq::<u8>::empty());
            if res {
                char_echo_vec(chr)
            } else {
                del_echo_vec(chr)
            }
        } else {
            if self.push_char(chr) {
                char_echo_vec(chr)
            } else {
                del_echo_vec(chr)
            }
        }
    }

    /// The bytes that show a written character on the terminal.
    fn process_char(&self, chr: u8) -> (r: Vec<u8>)
        ensures
            r@ == process_spec(chr),
    {
        let mut v: Vec<u8> = Vec::new();
        if chr == 0x0a || chr == 0x0d {
            v.push(0x0a);
            assert(v@ =~= process_spec(chr));
            v
        } else if chr == 0x09 {
            v.push(0x20);
            v.push(0x20);
            v.push(0x20);
            v.push(0x20);
            assert(v@ =~= process_spec(chr));
            v
        } else if chr == 0x7f || chr == 0x08 {
            v.push(0x08);
            v.push(0x20);
            v.push(0x08);
            assert(v@ =~= process_spec(chr));
            v
        } else {
            char_echo_vec(chr)
        }
    }
}

} // verus!
