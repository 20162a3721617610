//! The kernel shell: how a typed line becomes a command and its arguments,
//! the table of commands, and what each command decides from its arguments.
//! Reading the line, writing the answers and running processes is left to the
//! caller.
use vstd::prelude::*;
use vstd::string::StringSliceAdditionalSpecFns;
use crate::base::errno::{Errno, KResult};
use crate::base::from_str::{parse_unsigned_bytes, spec_parse_unsigned};
use crate::base::text::{is_utf8, utf8_valid};

verus! {

/// The byte ` `.
pub open spec fn space() -> u8 {
    0x20u8
}

/// The words of `s` after the word `cur` already begun: the runs of bytes
/// between spaces, empty ones left out.
pub open spec fn words_from(s: Seq<u8>, cur: Seq<u8>) -> Seq<Seq<u8>>
    decreases s.len(),
{
    if s.len() == 0 {
        if cur.len() == 0 {
            seq![]
        } else {
            seq![cur]
        }
    } else if s[0] == space() {
        (if cur.len() == 0 {
            seq![]
        } else {
            seq![cur]
        }) + words_from(s.drop_first(), seq![])
    } else {
        words_from(s.drop_first(), cur.push(s[0]))
    }
}

/// The words of a command line.
pub open spec fn words(s: Seq<u8>) -> Seq<Seq<u8>> {
    words_from(s, seq![])
}

/// The byte strings a list of byte vectors holds.
pub open spec fn strs(v: Seq<Vec<u8>>) -> Seq<Seq<u8>> {
    v.map_values(|x: Vec<u8>| x@)
}

/// The words of `line`: its runs of bytes between spaces, empty ones left out.
pub fn split_words(line: &[u8]) -> (r: Vec<Vec<u8>>)
    ensures
        strs(r@) == words(line@),
{
    let mut out: Vec<Vec<u8>> = Vec::new();
    let mut cur: Vec<u8> = Vec::new();
    let mut i: usize = 0;
    assert(line@.subrange(0, line@.len() as int) =~= line@);
    while i < line.len()
        invariant
            i <= line@.len(),
            strs(out@) + words_from(line@.subrange(i as int, line@.len() as int), cur@) == words(line@),
        decreases line@.len() - i,
    {
        let ghost rest = line@.subrange(i as int, line@.len() as int);
        proof {
            assert(rest.drop_first() =~= line@.subrange(i + 1, line@.len() as int));
            assert(rest[0] == line@[i as int]);
        }
        if line[i] == 0x20 {
            if cur.len() != 0 {
                let ghost before = strs(out@);
                let w = cur;
                out.push(w);
                cur = Vec::new();
                proof {
                    assert(strs(out@) =~= before + seq![w@]);
                    assert(before + seq![w@] + words_from(rest.drop_first(), seq![]) =~= before + (seq![w@]
                        + words_from(rest.drop_first(), seq![])));
                }
            } else {
                proof {
                    assert(seq![] + words_from(rest.drop_first(), seq![]) =~= words_from(rest.drop_first(), seq![]));
                    assert(cur@ =~= Seq::<u8>::empty());
                }
            }
        } else {
            cur.push(line[i]);
        }
        i = i + 1;
    }
    proof {
        assert(line@.subrange(i as int, line@.len() as int) =~= Seq::<u8>::empty());
    }
    if cur.len() != 0 {
        let ghost before = strs(out@);
        out.push(cur);
        proof {
            assert(strs(out@) =~= before + seq![out@[out@.len() - 1]@]);
        }
    } else {
        proof {
            assert(strs(out@) + seq![] =~= strs(out@));
        }
    }
    out
}

/// The command a typed line holds: the bytes read but the last (the end of
/// the line), split into words; `None` where they are not UTF-8 text, which
/// the shell ignores.
pub fn parse_line(read: &[u8]) -> (r: Option<Vec<Vec<u8>>>)
    requires
        read@.len() >= 1,
    ensures
        r is None <==> !utf8_valid(read@.drop_last()),
        r matches Some(w) ==> strs(w@) == words(read@.drop_last()),
{
    let line = slice_prefix(read, read.len() - 1);
    proof {
        assert(line@ =~= read@.drop_last());
    }
    if !is_utf8(line) {
        return None;
    }
    Some(split_words(line))
}

/// The first `n` bytes of `s`.
fn slice_prefix(s: &[u8], n: usize) -> (r: &[u8])
    requires
        n <= s@.len(),
    ensures
        r@ == s@.subrange(0, n as int),
{
    &s[0..n]
}

/// `a` comes before `b` in byte-wise dictionary order.
pub open spec fn lex_lt(a: Seq<u8>, b: Seq<u8>) -> bool
    decreases a.len(),
{
    if a.len() == 0 {
        b.len() > 0
    } else if b.len() == 0 {
        false
    } else if a[0] != b[0] {
        a[0] < b[0]
    } else {
        lex_lt(a.drop_first(), b.drop_first())
    }
}

/// Dictionary order is strict and total: exactly one of `a < b`, `a == b`,
/// `b < a` holds.
pub proof fn lemma_lex_total(a: Seq<u8>, b: Seq<u8>)
    ensures
        !(lex_lt(a, b) && lex_lt(b, a)),
        a != b ==> lex_lt(a, b) || lex_lt(b, a),
        !lex_lt(a, a),
    decreases a.len(),
{
    if a.len() > 0 {
        lemma_lex_total(a.drop_first(), a.drop_first());
    }
    if a.len() > 0 && b.len() > 0 && a[0] == b[0] {
        lemma_lex_total(a.drop_first(), b.drop_first());
        if a != b {
            assert(a.drop_first() != b.drop_first()) by {
                if a.drop_first() == b.drop_first() {
                    assert(a =~= seq![a[0]] + a.drop_first());
                    assert(b =~= seq![b[0]] + b.drop_first());
                }
            }
        }
    }
    if a.len() == 0 && b.len() == 0 {
        assert(a =~= b);
    }
}

/// Dictionary order is transitive.
pub proof fn lemma_lex_trans(a: Seq<u8>, b: Seq<u8>, c: Seq<u8>)
    requires
        lex_lt(a, b),
        lex_lt(b, c),
    ensures
        lex_lt(a, c),
    decreases a.len(),
{
    if a.len() > 0 && b.len() > 0 && c.len() > 0 && a[0] == b[0] && b[0] == c[0] {
        lemma_lex_trans(a.drop_first(), b.drop_first(), c.drop_first());
    }
}

/// Whether `a` comes before `b` in byte-wise dictionary order.
pub fn lex_less(a: &[u8], b: &[u8]) -> (r: bool)
    ensures
        r == lex_lt(a@, b@),
{
    let mut i: usize = 0;
    assert(a@.subrange(0, a@.len() as int) =~= a@);
    assert(b@.subrange(0, b@.len() as int) =~= b@);
    while i < a.len() && i < b.len() && a[i] == b[i]
        invariant
            i <= a@.len(),
            i <= b@.len(),
            lex_lt(a@, b@) == lex_lt(a@.subrange(i as int, a@.len() as int), b@.subrange(
                i as int,
                b@.len() as int,
            )),
        decreases a@.len() - i,
    {
        proof {
            let sa = a@.subrange(i as int, a@.len() as int);
            let sb = b@.subrange(i as int, b@.len() as int);
            assert(sa.drop_first() =~= a@.subrange(i + 1, a@.len() as int));
            assert(sb.drop_first() =~= b@.subrange(i + 1, b@.len() as int));
        }
        i = i + 1;
    }
    proof {
        let sa = a@.subrange(i as int, a@.len() as int);
        let sb = b@.subrange(i as int, b@.len() as int);
        if i < a@.len() && i < b@.len() {
            assert(sa[0] == a@[i as int] && sb[0] == b@[i as int]);
        }
    }
    if i == a.len() {
        i < b.len()
    } else if i == b.len() {
        false
    } else {
        a[i] < b[i]
    }
}

/// A shell command: its name, the line `help` shows for it, and the number
/// by which the caller knows the routine that runs it.
pub struct KFunction {
    pub name: Vec<u8>,
    pub description: Vec<u8>,
    pub id: usize,
}

impl KFunction {
    /// A command whose description is its name.
    pub fn create(name: Vec<u8>, id: usize) -> (r: KFunction)
        ensures
            r.name@ == name@,
            r.description@ == name@,
            r.id == id,
    {
        let description = name.clone();
        KFunction { name, description, id }
    }

    /// A command with a description.
    pub fn new(name: Vec<u8>, description: Vec<u8>, id: usize) -> (r: KFunction)
        ensures
            r.name@ == name@,
            r.description@ == description@,
            r.id == id,
    {
        KFunction { name, description, id }
    }
}

/// A command as values: its name, description and routine number.
pub open spec fn func_view(f: KFunction) -> (Seq<u8>, Seq<u8>, usize) {
    (f.name@, f.description@, f.id)
}

/// The description and routine number of the command named `name` in `t`.
pub open spec fn table_find(t: Seq<(Seq<u8>, Seq<u8>, usize)>, name: Seq<u8>) -> Option<(Seq<u8>, usize)>
    decreases t.len(),
{
    if t.len() == 0 {
        None
    } else if t[0].0 == name {
        Some((t[0].1, t[0].2))
    } else {
        table_find(t.drop_first(), name)
    }
}

/// The commands of `t` are in strictly increasing order of name.
pub open spec fn table_sorted(t: Seq<(Seq<u8>, Seq<u8>, usize)>) -> bool {
    forall|i: int, j: int| 0 <= i < j < t.len() ==> lex_lt(t[i].0, t[j].0)
}

/// The kernel shell's table of commands, in order of name.
pub struct KShell {
    funcs: Vec<KFunction>,
}

impl KShell {
    /// The commands, in order of name.
    pub closed spec fn table(&self) -> Seq<(Seq<u8>, Seq<u8>, usize)> {
        self.funcs@.map_values(|f: KFunction| func_view(f))
    }

    /// The commands are in strictly increasing order of name.
    pub open spec fn wf(&self) -> bool {
        table_sorted(self.table())
    }

    /// A shell without commands.
    pub fn new() -> (r: KShell)
        ensures
            r.wf(),
            r.table() == Seq::<(Seq<u8>, Seq<u8>, usize)>::empty(),
    {
        let r = KShell { funcs: Vec::new() };
        assert(r.table() =~= Seq::<(Seq<u8>, Seq<u8>, usize)>::empty());
        r
    }

    /// The number of commands.
    pub fn len(&self) -> (r: usize)
        ensures
            r == self.table().len(),
    {
        self.funcs.len()
    }

    /// The command at `i` in order of name.
    pub fn get(&self, i: usize) -> (r: &KFunction)
        requires
            i < self.table().len(),
        ensures
            func_view(*r) == self.table()[i as int],
    {
        &self.funcs[i]
    }

    /// Add command `f`, in its place by name; a command of the same name is
    /// replaced. Returns whether the name was new.
    pub fn add_function(&mut self, f: KFunction) -> (r: bool)
        requires
            old(self).wf(),
        ensures
            final(self).wf(),
            r == (table_find(old(self).table(), f.name@) is None),
            table_find(final(self).table(), f.name@) == Some((f.description@, f.id)),
            forall|k: Seq<u8>| k != f.name@ ==> table_find(final(self).table(), k) == table_find(
                old(self).table(),
                k,
            ),
            final(self).table().len() == old(self).table().len() + (if r { 1int } else { 0int }),
    {
        let ghost t0 = self.table();
        let mut i: usize = 0;
        while i < self.funcs.len() && lex_less(self.funcs[i].name.as_slice(), f.name.as_slice())
            invariant
                i <= self.funcs@.len(),
                self.table() == t0,
                t0 == old(self).table(),
                table_sorted(t0),
                forall|j: int| 0 <= j < i ==> lex_lt(t0[j].0, f.name@),
            decreases self.funcs@.len() - i,
        {
            proof {
                assert(t0[i as int] == func_view(self.funcs@[i as int]));
            }
            i = i + 1;
        }
        let ghost fv = func_view(f);
        proof {
            lemma_find_absent_prefix(t0, f.name@, i as int);
        }
        if i < self.funcs.len() && bytes_equal(self.funcs[i].name.as_slice(), f.name.as_slice()) {
            proof {
                assert(t0[i as int] == func_view(self.funcs@[i as int]));
            }
            self.funcs.set(i, f);
            proof {
                assert(self.table() =~= t0.update(i as int, fv));
                lemma_find_replace(t0, i as int, fv);
            }
            false
        } else {
            proof {
                if i < t0.len() {
                    assert(t0[i as int] == func_view(self.funcs@[i as int]));
                    lemma_lex_total(t0[i as int].0, f.name@);
                }
            }
            self.funcs.insert(i, f);
            proof {
                assert(self.table() =~= t0.insert(i as int, fv));
                lemma_find_insert(t0, i as int, fv);
            }
            true
        }
    }

    /// The command named `name`, if any.
    pub fn find(&self, name: &[u8]) -> (r: Option<&KFunction>)
        ensures
            match r {
                Some(f) => table_find(self.table(), name@) == Some((f.description@, f.id)) && f.name@
                    == name@,
                None => table_find(self.table(), name@) is None,
            },
    {
        let ghost t = self.table();
        let mut i: usize = 0;
        assert(t.subrange(0, t.len() as int) =~= t);
        while i < self.funcs.len()
            invariant
                i <= self.funcs@.len(),
                t == self.table(),
                table_find(t, name@) == table_find(t.subrange(i as int, t.len() as int), name@),
            decreases self.funcs@.len() - i,
        {
            proof {
                let rest = t.subrange(i as int, t.len() as int);
                assert(rest.drop_first() =~= t.subrange(i + 1, t.len() as int));
                assert(rest[0] == func_view(self.funcs@[i as int]));
            }
            if bytes_equal(self.funcs[i].name.as_slice(), name) {
                return Some(&self.funcs[i]);
            }
            i = i + 1;
        }
        None
    }
}

/// Whether `a` and `b` hold the same bytes.
pub fn bytes_equal(a: &[u8], b: &[u8]) -> (r: bool)
    ensures
        r == (a@ == b@),
{
    if a.len() != b.len() {
        return false;
    }
    let mut i: usize = 0;
    while i < a.len()
        invariant
            i <= a@.len() == b@.len(),
            forall|j: int| 0 <= j < i ==> a@[j] == b@[j],
        decreases a@.len() - i,
    {
        if a[i] != b[i] {
            return false;
        }
        i = i + 1;
    }
    assert(a@ =~= b@);
    true
}

/// In a sorted table whose names before `i` all come before `name`, and whose
/// name at `i` (if any) does not, `name` can only be found at `i`.
proof fn lemma_find_absent_prefix(t: Seq<(Seq<u8>, Seq<u8>, usize)>, name: Seq<u8>, i: int)
    requires
        0 <= i <= t.len(),
        forall|j: int| 0 <= j < i ==> lex_lt(t[j].0, name),
    ensures
        table_find(t, name) == table_find(t.subrange(i, t.len() as int), name),
    decreases i,
{
    if i > 0 {
        lemma_lex_total(t[0].0, name);
        assert(t[0].0 != name) by {
            lemma_lex_total(name, name);
        }
        let u = t.drop_first();
        assert forall|j: int| 0 <= j < i - 1 implies lex_lt(u[j].0, name) by {
            assert(u[j] == t[j + 1]);
        }
        lemma_find_absent_prefix(u, name, i - 1);
        assert(u.subrange(i - 1, u.len() as int) =~= t.subrange(i, t.len() as int));
    } else {
        assert(t.subrange(0, t.len() as int) =~= t);
    }
}

/// What finding a name gives in a table where the entry at `i` is replaced
/// by one of the same name.
proof fn lemma_find_replace(t: Seq<(Seq<u8>, Seq<u8>, usize)>, i: int, e: (Seq<u8>, Seq<u8>, usize))
    requires
        table_sorted(t),
        0 <= i < t.len(),
        t[i].0 == e.0,
        table_find(t, e.0) == table_find(t.subrange(i, t.len() as int), e.0),
    ensures
        table_sorted(t.update(i, e)),
        table_find(t.update(i, e), e.0) == Some((e.1, e.2)),
        table_find(t, e.0) is Some,
        forall|k: Seq<u8>| k != e.0 ==> table_find(t.update(i, e), k) == table_find(t, k),
{
    let u = t.update(i, e);
    assert forall|a: int, b: int| 0 <= a < b < u.len() implies lex_lt(u[a].0, u[b].0) by {
        assert(lex_lt(t[a].0, t[b].0));
    }
    assert(t.subrange(i, t.len() as int)[0] == t[i]);
    assert forall|k: Seq<u8>| k != e.0 implies table_find(u, k) == table_find(t, k) by {
        lemma_find_pointwise(t, u, k, i);
    }
    lemma_find_first_at(u, e.0, i);
}

/// Finding a name that is not at `i` gives the same in two tables that
/// differ only at `i` and have there names other than it.
proof fn lemma_find_pointwise(
    t: Seq<(Seq<u8>, Seq<u8>, usize)>,
    u: Seq<(Seq<u8>, Seq<u8>, usize)>,
    k: Seq<u8>,
    i: int,
)
    requires
        t.len() == u.len(),
        0 <= i < t.len(),
        forall|j: int| 0 <= j < t.len() && j != i ==> t[j] == u[j],
        t[i].0 != k,
        u[i].0 != k,
    ensures
        table_find(u, k) == table_find(t, k),
    decreases t.len(),
{
    if t.len() > 0 {
        if i > 0 {
            if t[0].0 != k {
                lemma_find_pointwise(t.drop_first(), u.drop_first(), k, i - 1);
            }
        } else {
            assert(t.drop_first() =~= u.drop_first());
        }
    }
}

/// In a sorted table holding `name` at `i`, finding `name` gives entry `i`.
proof fn lemma_find_first_at(t: Seq<(Seq<u8>, Seq<u8>, usize)>, name: Seq<u8>, i: int)
    requires
        table_sorted(t),
        0 <= i < t.len(),
        t[i].0 == name,
    ensures
        table_find(t, name) == Some((t[i].1, t[i].2)),
    decreases i,
{
    if i > 0 {
        assert(lex_lt(t[0].0, t[i].0));
        lemma_lex_total(name, name);
        let u = t.drop_first();
        assert forall|a: int, b: int| 0 <= a < b < u.len() implies lex_lt(u[a].0, u[b].0) by {
            assert(u[a] == t[a + 1] && u[b] == t[b + 1]);
        }
        lemma_find_first_at(u, name, i - 1);
    }
}

/// What finding a name gives once entry `e`, whose name the table lacks, is
/// inserted at `i`, between the names before it and those after.
proof fn lemma_find_insert(t: Seq<(Seq<u8>, Seq<u8>, usize)>, i: int, e: (Seq<u8>, Seq<u8>, usize))
    requires
        table_sorted(t),
        0 <= i <= t.len(),
        forall|j: int| 0 <= j < i ==> lex_lt(t[j].0, e.0),
        i < t.len() ==> lex_lt(e.0, t[i].0),
        table_find(t, e.0) == table_find(t.subrange(i, t.len() as int), e.0),
    ensures
        table_sorted(t.insert(i, e)),
        table_find(t.insert(i, e), e.0) == Some((e.1, e.2)),
        table_find(t, e.0) is None,
        forall|k: Seq<u8>| k != e.0 ==> table_find(t.insert(i, e), k) == table_find(t, k),
{
    let u = t.insert(i, e);
    assert forall|a: int, b: int| 0 <= a < b < u.len() implies lex_lt(u[a].0, u[b].0) by {
        if b < i {
            assert(lex_lt(t[a].0, t[b].0));
        } else if b == i {
            assert(u[a] == t[a]);
        } else if a > i {
            assert(u[a] == t[a - 1] && u[b] == t[b - 1]);
            assert(lex_lt(t[a - 1].0, t[b - 1].0));
        } else if a == i {
            assert(u[b] == t[b - 1]);
            if b - 1 > i {
                assert(lex_lt(t[i].0, t[b - 1].0));
                lemma_lex_trans(e.0, t[i].0, t[b - 1].0);
            }
        } else {
            assert(u[a] == t[a] && u[b] == t[b - 1]);
            if b - 1 > a {
                assert(lex_lt(t[a].0, t[b - 1].0));
            }
            if b - 1 == a {
                assert(false);
            }
        }
    }
    lemma_find_first_at(u, e.0, i);
    lemma_find_absent_rest(t, e.0, i);
    assert forall|k: Seq<u8>| k != e.0 implies table_find(u, k) == table_find(t, k) by {
        lemma_find_skip_insert(t, i, e, k);
    }
}

/// A name before all of `t[i..]`, with `t` sorted, is not in `t[i..]`.
proof fn lemma_find_absent_rest(t: Seq<(Seq<u8>, Seq<u8>, usize)>, name: Seq<u8>, i: int)
    requires
        table_sorted(t),
        0 <= i <= t.len(),
        i < t.len() ==> lex_lt(name, t[i].0),
    ensures
        table_find(t.subrange(i, t.len() as int), name) is None,
    decreases t.len() - i,
{
    if i < t.len() {
        let s = t.subrange(i, t.len() as int);
        lemma_lex_total(name, t[i].0);
        assert(s[0] == t[i]);
        if i + 1 < t.len() {
            assert(lex_lt(t[i].0, t[i + 1].0));
            lemma_lex_trans(name, t[i].0, t[i + 1].0);
        }
        lemma_find_absent_rest(t, name, i + 1);
        assert(s.drop_first() =~= t.subrange(i + 1, t.len() as int));
    }
}

/// Inserting an entry named other than `k` does not change what finding `k`
/// gives.
proof fn lemma_find_skip_insert(t: Seq<(Seq<u8>, Seq<u8>, usize)>, i: int, e: (Seq<u8>, Seq<u8>, usize), k: Seq<u8>)
    requires
        0 <= i <= t.len(),
        k != e.0,
    ensures
        table_find(t.insert(i, e), k) == table_find(t, k),
    decreases i,
{
    let u = t.insert(i, e);
    if i == 0 {
        assert(u.drop_first() =~= t);
    } else {
        assert(u.drop_first() =~= t.drop_first().insert(i - 1, e));
        if t[0].0 != k {
            lemma_find_skip_insert(t.drop_first(), i - 1, e, k);
        }
    }
}

/// The bytes of `s`.
fn bytes_of(s: &str) -> (r: Vec<u8>)
    ensures
        r@ == s.spec_bytes(),
{
    vstd::slice::slice_to_vec(s.as_bytes())
}

/// A copy of the byte vector `v`.
fn copy_bytes(v: &Vec<u8>) -> (r: Vec<u8>)
    ensures
        r@ == v@,
{
    vstd::slice::slice_to_vec(v.as_slice())
}

/// The number a command argument gives, as a `usize` (saturating).
pub open spec fn arg_usize(b: Seq<u8>) -> Option<usize> {
    match spec_parse_unsigned(b, usize::MAX as u64) {
        Some(v) => Some(v as usize),
        None => None,
    }
}

/// The number a command argument gives, as a `u8` (saturating).
pub open spec fn arg_u8(b: Seq<u8>) -> Option<u8> {
    match spec_parse_unsigned(b, 0xff) {
        Some(v) => Some(v as u8),
        None => None,
    }
}

/// Parse an argument as a `usize`.
fn parse_usize(b: &[u8]) -> (r: Option<usize>)
    ensures
        r == arg_usize(b@),
{
    match parse_unsigned_bytes(b, usize::MAX as u64) {
        Some(v) => Some(v as usize),
        None => None,
    }
}

/// Parse an argument as a `u8`.
fn parse_u8(b: &[u8]) -> (r: Option<u8>)
    ensures
        r == arg_u8(b@),
{
    match parse_unsigned_bytes(b, 0xff) {
        Some(v) => Some(v as u8),
        None => None,
    }
}

impl KShell {
    /// The routine that runs the command `argv` names: `ENOMSG` for an empty
    /// line or an unknown command.
    pub fn resolve_command(&self, argv: &Vec<Vec<u8>>) -> (r: KResult<usize>)
        ensures
            argv@.len() == 0 ==> r == Err::<usize, Errno>(Errno::ENOMSG),
            argv@.len() > 0 ==> match table_find(self.table(), argv@[0]@) {
                Some((_, id)) => r == Ok::<usize, Errno>(id),
                None => r == Err::<usize, Errno>(Errno::ENOMSG),
            },
    {
        if argv.len() == 0 {
            return Err(Errno::ENOMSG);
        }
        match self.find(argv[0].as_slice()) {
            Some(f) => Ok(f.id),
            None => Err(Errno::ENOMSG),
        }
    }

    /// The lines `help` shows: each command's name, ` - ` and its
    /// description, in order of name, after the title line.
    pub fn help_lines(&self) -> (r: Vec<Vec<u8>>)
        ensures
            r@.len() == self.table().len() + 1,
            r@[0]@ == "KSHELL COMMANDS".spec_bytes(),
            forall|i: int|
                0 <= i < self.table().len() ==> (#[trigger] r@[i + 1])@ == self.table()[i].0
                    + " - ".spec_bytes() + self.table()[i].1,
    {
        let mut out: Vec<Vec<u8>> = Vec::new();
        out.push(bytes_of("KSHELL COMMANDS"));
        let sep = bytes_of(" - ");
        let mut i: usize = 0;
        while i < self.funcs.len()
            invariant
                i <= self.funcs@.len(),
                sep@ == " - ".spec_bytes(),
                out@.len() == i + 1,
                out@[0]@ == "KSHELL COMMANDS".spec_bytes(),
                forall|j: int|
                    0 <= j < i ==> (#[trigger] out@[j + 1])@ == self.table()[j].0 + " - ".spec_bytes()
                        + self.table()[j].1,
            decreases self.funcs@.len() - i,
        {
            let f = &self.funcs[i];
            let mut line = copy_bytes(&f.name);
            let mut k: usize = 0;
            while k < sep.len()
                invariant
                    k <= sep@.len(),
                    line@ == f.name@ + sep@.subrange(0, k as int),
                decreases sep@.len() - k,
            {
                line.push(sep[k]);
                proof {
                    assert(sep@.subrange(0, k + 1) =~= sep@.subrange(0, k as int).push(sep@[k as int]));
                }
                k = k + 1;
            }
            let mut k: usize = 0;
            let ghost base = line@;
            while k < f.description.len()
                invariant
                    k <= f.description@.len(),
                    line@ == base + f.description@.subrange(0, k as int),
                decreases f.description@.len() - k,
            {
                line.push(f.description[k]);
                proof {
                    assert(f.description@.subrange(0, k + 1) =~= f.description@.subrange(0, k as int).push(
                        f.description@[k as int],
                    ));
                }
                k = k + 1;
            }
            proof {
                assert(sep@.subrange(0, sep@.len() as int) =~= sep@);
                assert(f.description@.subrange(0, f.description@.len() as int) =~= f.description@);
                assert(self.table()[i as int] == func_view(self.funcs@[i as int]));
            }
            out.push(line);
            i = i + 1;
        }
        out
    }
}

/// The words of `ws` separated by single spaces.
pub open spec fn join_spaced(ws: Seq<Seq<u8>>) -> Seq<u8>
    decreases ws.len(),
{
    if ws.len() == 0 {
        seq![]
    } else if ws.len() == 1 {
        ws[0]
    } else {
        join_spaced(ws.drop_last()) + seq![space()] + ws.last()
    }
}

/// The words after the first; none where there is none.
pub open spec fn skip_first(s: Seq<Seq<u8>>) -> Seq<Seq<u8>> {
    if s.len() == 0 {
        s
    } else {
        s.drop_first()
    }
}

/// What `echo` writes: its arguments separated by spaces, then a new line.
pub fn do_echo(argv: &Vec<Vec<u8>>) -> (r: Vec<u8>)
    ensures
        r@ == join_spaced(skip_first(strs(argv@))) + seq![0x0au8],
{
    let mut out: Vec<u8> = Vec::new();
    if argv.len() == 0 {
        out.push(0x0a);
        assert(out@ =~= join_spaced(skip_first(strs(argv@))) + seq![0x0au8]);
        return out;
    }
    let ghost args = strs(argv@).drop_first();
    let mut i: usize = 1;
    while i < argv.len()
        invariant
            1 <= i <= argv@.len(),
            args == strs(argv@).drop_first(),
            out@ == join_spaced(args.subrange(0, i - 1)),
        decreases argv@.len() - i,
    {
        let ghost before = out@;
        if i != 1 {
            out.push(0x20);
        }
        let w = &argv[i];
        let mut k: usize = 0;
        let ghost mid = out@;
        while k < w.len()
            invariant
                k <= w@.len(),
                out@ == mid + w@.subrange(0, k as int),
            decreases w@.len() - k,
        {
            out.push(w[k]);
            proof {
                assert(w@.subrange(0, k + 1) =~= w@.subrange(0, k as int).push(w@[k as int]));
            }
            k = k + 1;
        }
        proof {
            assert(w@.subrange(0, w@.len() as int) =~= w@);
            let s = args.subrange(0, i as int);
            assert(s.drop_last() =~= args.subrange(0, i - 1));
            assert(s.last() == w@);
            if i == 1 {
                assert(out@ =~= join_spaced(s));
            } else {
                assert(out@ =~= join_spaced(s.drop_last()) + seq![space()] + s.last());
            }
        }
        i = i + 1;
    }
    proof {
        assert(args.subrange(0, argv@.len() - 1) =~= args);
    }
    out.push(0x0a);
    out
}

/// What `exit` decides.
#[derive(Clone, Copy, Debug, PartialEq, Eq, Structural)]
pub enum ExitPlan {
    /// Show the usage line and carry on.
    Usage,
    /// Stop with this status: cancelled, or exited at once when `hard`.
    Exit { status: usize, hard: bool },
}

/// What `exit [number]` (or `hard-exit [number]`) does: no number means
/// status 0; more than one argument, or one that is no number, shows the usage.
pub fn do_exit(argv: &Vec<Vec<u8>>) -> (r: ExitPlan)
    requires
        argv@.len() >= 1,
    ensures
        argv@.len() > 2 ==> r == ExitPlan::Usage,
        argv@.len() == 2 && arg_usize(argv@[1]@) is None ==> r == ExitPlan::Usage,
        argv@.len() <= 2 && (argv@.len() < 2 || arg_usize(argv@[1]@) is Some) ==> r == (ExitPlan::Exit {
            status: if argv@.len() < 2 { 0 } else { arg_usize(argv@[1]@)->0 },
            hard: argv@[0]@ == "hard-exit".spec_bytes(),
        }),
{
    let status: usize = if argv.len() < 2 {
        0
    } else if argv.len() > 2 {
        return ExitPlan::Usage;
    } else {
        match parse_usize(argv[1].as_slice()) {
            Some(v) => v,
            None => return ExitPlan::Usage,
        }
    };
    let hard = bytes_equal(argv[0].as_slice(), "hard-exit".as_bytes());
    ExitPlan::Exit { status, hard }
}

/// What `kshell [tty id]` decides: `Ok(None)` shows the usage; `EINVAL`
/// for an id that is no number; else the terminal to start a shell on.
pub fn do_newkshell(argv: &Vec<Vec<u8>>) -> (r: KResult<Option<u8>>)
    ensures
        argv@.len() != 2 ==> r == Ok::<Option<u8>, Errno>(None),
        argv@.len() == 2 ==> match arg_u8(argv@[1]@) {
            Some(id) => r == Ok::<Option<u8>, Errno>(Some(id)),
            None => r == Err::<Option<u8>, Errno>(Errno::EINVAL),
        },
{
    if argv.len() != 2 {
        return Ok(None);
    }
    match parse_u8(argv[1].as_slice()) {
        Some(id) => Ok(Some(id)),
        None => Err(Errno::EINVAL),
    }
}

/// What `read-block block_num` decides: `None` shows the usage (wrong
/// number of arguments or no number), else the block to read.
pub fn do_bdread(argv: &Vec<Vec<u8>>) -> (r: Option<usize>)
    ensures
        argv@.len() != 2 ==> r is None,
        argv@.len() == 2 ==> r == arg_usize(argv@[1]@),
{
    if argv.len() != 2 {
        return None;
    }
    parse_usize(argv[1].as_slice())
}

/// How much of a block read is shown: the bytes before the first zero byte
/// or byte that is no character on its own (one of 0x80 and up).
pub fn printable_prefix(page: &[u8]) -> (r: usize)
    ensures
        r <= page@.len(),
        forall|i: int| 0 <= i < r ==> page@[i] != 0 && page@[i] < 0x80,
        r < page@.len() ==> page@[r as int] == 0 || page@[r as int] >= 0x80,
{
    let mut cnt: usize = 0;
    while cnt < page.len()
        invariant
            cnt <= page@.len(),
            forall|i: int| 0 <= i < cnt ==> page@[i] != 0 && page@[i] < 0x80,
        decreases page@.len() - cnt,
    {
        let one = slice_between(page, cnt, cnt + 1);
        proof {
            assert(one@[0] == page@[cnt as int]);
        }
        if page[cnt] == 0 || !is_utf8(one) {
            return cnt;
        }
        cnt = cnt + 1;
    }
    cnt
}

/// The bytes `s[a..b]`.
fn slice_between(s: &[u8], a: usize, b: usize) -> (r: &[u8])
    requires
        a <= b <= s@.len(),
    ensures
        r@ == s@.subrange(a as int, b as int),
{
    &s[a..b]
}

/// What `repeat num cmd ...` decides: `EBADMSG` for too few arguments or a
/// count that is no number, else how many times to run the rest.
pub fn do_repeat(argv: &Vec<Vec<u8>>) -> (r: KResult<usize>)
    ensures
        argv@.len() < 3 ==> r == Err::<usize, Errno>(Errno::EBADMSG),
        argv@.len() >= 3 ==> match arg_usize(argv@[1]@) {
            Some(c) => r == Ok::<usize, Errno>(c),
            None => r == Err::<usize, Errno>(Errno::EBADMSG),
        },
{
    if argv.len() < 3 {
        return Err(Errno::EBADMSG);
    }
    match parse_usize(argv[1].as_slice()) {
        Some(c) => Ok(c),
        None => Err(Errno::EBADMSG),
    }
}

/// The text `write-blocks` puts in a block: each argument followed by a new line.
pub open spec fn bd_text(args: Seq<Seq<u8>>) -> Seq<u8>
    decreases args.len(),
{
    if args.len() == 0 {
        seq![]
    } else {
        bd_text(args.drop_last()) + args.last() + seq![0x0au8]
    }
}

/// Whether position `p` of that text is one of the new lines that end an
/// argument.
pub open spec fn is_terminator(args: Seq<Seq<u8>>, p: int) -> bool
    decreases args.len(),
{
    if args.len() == 0 {
        false
    } else {
        p == bd_text(args).len() - 1 || is_terminator(args.drop_last(), p)
    }
}

/// The text fits a block with room for its final zero byte: it is at most
/// 4095 bytes long, or is cut inside an argument (where a cut after a new
/// line would leave the zero byte no room).
pub open spec fn bd_fits(args: Seq<Seq<u8>>) -> bool {
    bd_text(args).len() <= 4095 || !is_terminator(args, 4095)
}

/// The block `write-blocks` writes: the text, cut at 4095 bytes, then zeros.
pub open spec fn bd_page(args: Seq<Seq<u8>>) -> Seq<u8> {
    let t = bd_text(args);
    let m = if t.len() < 4095 { t.len() as int } else { 4095 };
    Seq::new(4096, |i: int| if i < m { t[i] } else { 0u8 })
}

/// The text of `args` and whether position 4095 of it ends an argument.
fn build_text(argv: &Vec<Vec<u8>>, from: usize) -> (r: (Vec<u8>, bool))
    requires
        from <= argv@.len(),
    ensures
        r.0@ == bd_text(strs(argv@).subrange(from as int, argv@.len() as int)),
        r.1 == is_terminator(strs(argv@).subrange(from as int, argv@.len() as int), 4095),
{
    let ghost all = strs(argv@);
    let mut t: Vec<u8> = Vec::new();
    let mut term = false;
    let mut i = from;
    proof {
        assert(all.subrange(from as int, from as int) =~= Seq::<Seq<u8>>::empty());
    }
    while i < argv.len()
        invariant
            from <= i <= argv@.len(),
            all == strs(argv@),
            t@ == bd_text(all.subrange(from as int, i as int)),
            term == is_terminator(all.subrange(from as int, i as int), 4095),
        decreases argv@.len() - i,
    {
        let a = &argv[i];
        let ghost t0 = t@;
        let mut k: usize = 0;
        while k < a.len()
            invariant
                k <= a@.len(),
                t@ == t0 + a@.subrange(0, k as int),
            decreases a@.len() - k,
        {
            t.push(a[k]);
            proof {
                assert(a@.subrange(0, k + 1) =~= a@.subrange(0, k as int).push(a@[k as int]));
            }
            k = k + 1;
        }
        t.push(0x0a);
        if t.len() == 4096 {
            term = true;
        }
        proof {
            let s = all.subrange(from as int, i + 1);
            assert(s.drop_last() =~= all.subrange(from as int, i as int));
            assert(s.last() == a@);
            assert(a@.subrange(0, a@.len() as int) =~= a@);
            assert(t@ =~= bd_text(s));
        }
        i = i + 1;
    }
    (t, term)
}

/// Whether the text of the arguments from the fourth on fits a block (see
/// `bd_fits`); `write-blocks` is only run where it does.
pub fn bdwrite_fits(argv: &Vec<Vec<u8>>) -> (r: bool)
    requires
        argv@.len() >= 3,
    ensures
        r == bd_fits(strs(argv@).subrange(3, argv@.len() as int)),
{
    let (t, term) = build_text(argv, 3);
    t.len() <= 4095 || !term
}

/// The arguments of `write-blocks` ask for a write: there is text, the block
/// number and the count are numbers, and the count is at most 8.
pub open spec fn bd_writes(argv: Seq<Seq<u8>>) -> bool {
    &&& argv.len() >= 4
    &&& arg_usize(argv[1]) is Some
    &&& arg_usize(argv[2]) is Some
    &&& arg_usize(argv[2])->0 <= 8
}

/// What `write-blocks block_num reps text [...]` decides.
pub enum BdWritePlan {
    /// Too few arguments: show the usage.
    Usage,
    /// The block number is no number.
    BadBlock,
    /// The count is no number.
    BadReps,
    /// More than 8 blocks were asked for.
    TooMany,
    /// Write `page` to `blks` blocks from block `start` on.
    Write { start: usize, blks: usize, page: Vec<u8> },
}

/// What `write-blocks block_num reps text [...]` does: check its arguments,
/// and build the block of text it writes `reps` times from `block_num` on.
pub fn do_bdwrite(argv: &Vec<Vec<u8>>) -> (r: BdWritePlan)
    requires
        bd_writes(strs(argv@)) ==> bd_fits(strs(argv@).subrange(3, argv@.len() as int)),
    ensures
        argv@.len() < 4 ==> r is Usage,
        argv@.len() >= 4 && arg_usize(argv@[1]@) is None ==> r is BadBlock,
        argv@.len() >= 4 && arg_usize(argv@[1]@) is Some && arg_usize(argv@[2]@) is None ==> r is BadReps,
        argv@.len() >= 4 && arg_usize(argv@[1]@) is Some && arg_usize(argv@[2]@) is Some && arg_usize(
            argv@[2]@,
        )->0 > 8 ==> r is TooMany,
        bd_writes(strs(argv@)) ==> (r matches BdWritePlan::Write { start, blks, page } && start
            == arg_usize(argv@[1]@)->0 && blks == arg_usize(argv@[2]@)->0 && page@ == bd_page(
            strs(argv@).subrange(3, argv@.len() as int),
        )),
{
    if argv.len() < 4 {
        return BdWritePlan::Usage;
    }
    let start = match parse_usize(argv[1].as_slice()) {
        Some(v) => v,
        None => return BdWritePlan::BadBlock,
    };
    let blks = match parse_usize(argv[2].as_slice()) {
        Some(v) => v,
        None => return BdWritePlan::BadReps,
    };
    if blks > 8 {
        return BdWritePlan::TooMany;
    }
    let (t, _term) = build_text(argv, 3);
    let m = if t.len() < 4095 { t.len() } else { 4095 };
    let mut page: Vec<u8> = Vec::new();
    let mut i: usize = 0;
    while i < 4096
        invariant
            i <= 4096,
            m <= t@.len(),
            m == (if t@.len() < 4095 { t@.len() as int } else { 4095 }),
            page@.len() == i,
            forall|j: int| 0 <= j < i ==> page@[j] == (if j < m { t@[j] } else { 0u8 }),
        decreases 4096 - i,
    {
        if i < m {
            page.push(t[i]);
        } else {
            page.push(0);
        }
        i = i + 1;
    }
    proof {
        assert(page@ =~= bd_page(strs(argv@).subrange(3, argv@.len() as int)));
    }
    BdWritePlan::Write { start, blks, page }
}

/// The byte string `||`, which separates the commands of `parallel`.
pub open spec fn bars() -> Seq<u8> {
    seq![0x7cu8, 0x7cu8]
}

/// The commands in `ws` after the command `cur` already begun: the runs of
/// words between `||`, empty ones left out.
pub open spec fn groups_from(ws: Seq<Seq<u8>>, cur: Seq<Seq<u8>>) -> Seq<Seq<Seq<u8>>>
    decreases ws.len(),
{
    if ws.len() == 0 {
        if cur.len() == 0 {
            seq![]
        } else {
            seq![cur]
        }
    } else if ws[0] == bars() {
        (if cur.len() == 0 {
            seq![]
        } else {
            seq![cur]
        }) + groups_from(ws.drop_first(), seq![])
    } else {
        groups_from(ws.drop_first(), cur.push(ws[0]))
    }
}

/// The bytes of `||`.
fn bars_vec() -> (r: Vec<u8>)
    ensures
        r@ == bars(),
{
    let mut v: Vec<u8> = Vec::new();
    v.push(0x7c);
    v.push(0x7c);
    assert(v@ =~= bars());
    v
}

/// The commands that groups of words stand for.
pub open spec fn groups_view(g: Seq<Vec<Vec<u8>>>) -> Seq<Seq<Seq<u8>>> {
    g.map_values(|c: Vec<Vec<u8>>| strs(c@))
}

/// What `parallel cmd1 .. || cmd2 .. || ...` runs, each command in a process
/// of its own: `None` (show the usage) without any argument.
pub fn do_parallel(argv: &Vec<Vec<u8>>) -> (r: Option<Vec<Vec<Vec<u8>>>>)
    ensures
        argv@.len() < 2 ==> r is None,
        argv@.len() >= 2 ==> (r matches Some(g) && groups_view(g@) == groups_from(
            strs(argv@).drop_first(),
            seq![],
        )),
{
    if argv.len() < 2 {
        return None;
    }
    let ghost ws = strs(argv@).drop_first();
    let mut out: Vec<Vec<Vec<u8>>> = Vec::new();
    let mut cur: Vec<Vec<u8>> = Vec::new();
    let bar_bar = bars_vec();
    proof {
        assert(ws.subrange(0, ws.len() as int) =~= ws);
        assert(groups_view(out@) =~= Seq::<Seq<Seq<u8>>>::empty());
        assert(strs(cur@) =~= Seq::<Seq<u8>>::empty());
        assert(Seq::<Seq<Seq<u8>>>::empty() + groups_from(ws, seq![]) =~= groups_from(ws, seq![]));
    }
    let mut i: usize = 1;
    while i < argv.len()
        invariant
            1 <= i <= argv@.len(),
            ws == strs(argv@).drop_first(),
            bar_bar@ == bars(),
            groups_view(out@) + groups_from(ws.subrange(i - 1, ws.len() as int), strs(cur@))
                == groups_from(ws, seq![]),
        decreases argv@.len() - i,
    {
        let ghost rest = ws.subrange(i - 1, ws.len() as int);
        proof {
            assert(rest.drop_first() =~= ws.subrange(i as int, ws.len() as int));
            assert(rest[0] == argv@[i as int]@);
        }
        if bytes_equal(argv[i].as_slice(), bar_bar.as_slice()) {
            if cur.len() != 0 {
                let ghost before = groups_view(out@);
                let c = cur;
                out.push(c);
                cur = Vec::new();
                proof {
                    assert(groups_view(out@) =~= before + seq![strs(c@)]);
                    assert(strs(cur@) =~= Seq::<Seq<u8>>::empty());
                    assert(before + seq![strs(c@)] + groups_from(rest.drop_first(), seq![]) =~= before + (
                    seq![strs(c@)] + groups_from(rest.drop_first(), seq![])));
                }
            } else {
                proof {
                    assert(strs(cur@) =~= Seq::<Seq<u8>>::empty());
                    assert(seq![] + groups_from(rest.drop_first(), seq![]) =~= groups_from(
                        rest.drop_first(),
                        seq![],
                    ));
                }
            }
        } else {
            let w = copy_bytes(&argv[i]);
            let ghost c0 = strs(cur@);
            cur.push(w);
            proof {
                assert(strs(cur@) =~= c0.push(argv@[i as int]@));
            }
        }
        i = i + 1;
    }
    proof {
        assert(ws.subrange(i - 1, ws.len() as int) =~= Seq::<Seq<u8>>::empty());
    }
    if cur.len() != 0 {
        let ghost before = groups_view(out@);
        let c = cur;
        out.push(c);
        proof {
            assert(groups_view(out@) =~= before + seq![strs(c@)]);
        }
    } else {
        proof {
            assert(strs(cur@) =~= Seq::<Seq<u8>>::empty());
            assert(groups_view(out@) + seq![] =~= groups_view(out@));
        }
    }
    Some(out)
}

/// The command `prepeat` hands to `parallel`: `parallel`, then `reps` copies
/// of `cmd` separated by `||`.
pub open spec fn prepeat_spec(cmd: Seq<Seq<u8>>, reps: nat) -> Seq<Seq<u8>>
    decreases reps,
{
    if reps == 0 {
        seq!["parallel".spec_bytes()]
    } else {
        prepeat_spec(cmd, (reps - 1) as nat) + (if reps == 1 { seq![] } else { seq![bars()] }) + cmd
    }
}

/// What `prepeat cnt cmd ..` runs through `parallel`; `None` (show the
/// usage) for too few arguments or a count that is no number.
pub fn do_prepeat(argv: &Vec<Vec<u8>>) -> (r: Option<Vec<Vec<u8>>>)
    ensures
        argv@.len() < 3 ==> r is None,
        argv@.len() >= 3 ==> match arg_usize(argv@[1]@) {
            None => r is None,
            Some(reps) => r matches Some(c) && strs(c@) == prepeat_spec(
                strs(argv@).subrange(2, argv@.len() as int),
                reps as nat,
            ),
        },
{
    if argv.len() < 3 {
        return None;
    }
    let reps = match parse_usize(argv[1].as_slice()) {
        Some(v) => v,
        None => return None,
    };
    let ghost cmd = strs(argv@).subrange(2, argv@.len() as int);
    let mut out: Vec<Vec<u8>> = Vec::new();
    out.push(bytes_of("parallel"));
    proof {
        assert(strs(out@) =~= seq!["parallel".spec_bytes()]);
    }
    let mut n: usize = 0;
    while n < reps
        invariant
            n <= reps,
            cmd == strs(argv@).subrange(2, argv@.len() as int),
            argv@.len() >= 3,
            strs(out@) == prepeat_spec(cmd, n as nat),
        decreases reps - n,
    {
        let ghost before = strs(out@);
        if n != 0 {
            out.push(bars_vec());
        }
        let ghost mid = strs(out@);
        proof {
            assert(mid =~= before + (if n + 1 == 1 { seq![] } else { seq![bars()] }));
        }
        let mut k: usize = 2;
        while k < argv.len()
            invariant
                2 <= k <= argv@.len(),
                cmd == strs(argv@).subrange(2, argv@.len() as int),
                strs(out@) == mid + cmd.subrange(0, k - 2),
            decreases argv@.len() - k,
        {
            let ghost b = strs(out@);
            out.push(copy_bytes(&argv[k]));
            proof {
                assert(cmd.subrange(0, k - 1) =~= cmd.subrange(0, k - 2).push(argv@[k as int]@));
                assert(strs(out@) =~= b.push(out@[out@.len() - 1]@));
            }
            k = k + 1;
        }
        proof {
            assert(cmd.subrange(0, cmd.len() as int) =~= cmd);
        }
        n = n + 1;
    }
    Some(out)
}

/// Every word of a line is non-empty and holds no space.
pub proof fn lemma_words_clean(s: Seq<u8>, cur: Seq<u8>)
    requires
        forall|j: int| 0 <= j < cur.len() ==> cur[j] != space(),
    ensures
        forall|i: int|
            0 <= i < words_from(s, cur).len() ==> (#[trigger] words_from(s, cur)[i]).len() > 0
                && forall|j: int| 0 <= j < words_from(s, cur)[i].len() ==> words_from(s, cur)[i][j]
                != space(),
    decreases s.len(),
{
    if s.len() == 0 {
        let w = words_from(s, cur);
        if cur.len() == 0 {
            assert(w =~= Seq::<Seq<u8>>::empty());
        } else {
            assert(w =~= seq![cur]);
            assert(w[0] == cur);
        }
    } else if s[0] == space() {
        lemma_words_clean(s.drop_first(), seq![]);
        let head: Seq<Seq<u8>> = if cur.len() == 0 { seq![] } else { seq![cur] };
        let rest = words_from(s.drop_first(), seq![]);
        assert(words_from(s, cur) == head + rest);
        assert forall|i: int| 0 <= i < (head + rest).len() implies (#[trigger] (head + rest)[i]).len() > 0
            && forall|j: int| 0 <= j < (head + rest)[i].len() ==> (head + rest)[i][j] != space() by {
            if i < head.len() {
                assert((head + rest)[i] == cur);
            } else {
                assert((head + rest)[i] == rest[i - head.len()]);
            }
        }
    } else {
        let c2 = cur.push(s[0]);
        assert forall|j: int| 0 <= j < c2.len() implies c2[j] != space() by {
            if j < cur.len() {
                assert(c2[j] == cur[j]);
            }
        }
        lemma_words_clean(s.drop_first(), c2);
        assert(words_from(s, cur) == words_from(s.drop_first(), c2));
    }
}

/// The words of `s`, a space and `t` are those of `s` then those of `t`.
proof fn lemma_words_split(s: Seq<u8>, t: Seq<u8>, cur: Seq<u8>)
    ensures
        words_from(s + seq![space()] + t, cur) == words_from(s, cur) + words_from(t, seq![]),
    decreases s.len(),
{
    let whole = s + seq![space()] + t;
    let head: Seq<Seq<u8>> = if cur.len() == 0 { seq![] } else { seq![cur] };
    if s.len() == 0 {
        assert(whole.drop_first() =~= t);
        assert(whole[0] == space());
        assert(words_from(s, cur) == head);
    } else if s[0] == space() {
        assert(whole.drop_first() =~= s.drop_first() + seq![space()] + t);
        lemma_words_split(s.drop_first(), t, seq![]);
        assert(head + words_from(s.drop_first(), seq![]) + words_from(t, seq![]) =~= head + (words_from(
            s.drop_first(),
            seq![],
        ) + words_from(t, seq![])));
    } else {
        assert(whole.drop_first() =~= s.drop_first() + seq![space()] + t);
        assert(whole[0] == s[0]);
        lemma_words_split(s.drop_first(), t, cur.push(s[0]));
    }
}

/// A run of bytes without a space, after the word `cur` begun, ends that word.
proof fn lemma_words_single(w: Seq<u8>, cur: Seq<u8>)
    requires
        cur.len() + w.len() > 0,
        forall|j: int| 0 <= j < w.len() ==> w[j] != space(),
    ensures
        words_from(w, cur) == seq![cur + w],
    decreases w.len(),
{
    if w.len() == 0 {
        assert(cur + w =~= cur);
    } else {
        assert(w[0] != space());
        assert forall|j: int| 0 <= j < w.drop_first().len() implies w.drop_first()[j] != space() by {
            assert(w.drop_first()[j] == w[j + 1]);
        }
        lemma_words_single(w.drop_first(), cur.push(w[0]));
        assert(cur.push(w[0]) + w.drop_first() =~= cur + w);
    }
}

/// Words without spaces, none empty, joined by spaces split back into themselves.
proof fn lemma_join_words(ws: Seq<Seq<u8>>)
    requires
        forall|i: int|
            0 <= i < ws.len() ==> (#[trigger] ws[i]).len() > 0 && forall|j: int| 0 <= j < ws[i].len() ==> ws[i][j] != space(),
    ensures
        words(join_spaced(ws)) == ws,
    decreases ws.len(),
{
    if ws.len() == 0 {
        assert(words(join_spaced(ws)) =~= ws);
    } else if ws.len() == 1 {
        assert(ws[0].len() > 0);
        lemma_words_single(ws[0], seq![]);
        assert(seq![] + ws[0] =~= ws[0]);
        assert(seq![ws[0]] =~= ws);
    } else {
        let front = ws.drop_last();
        assert forall|i: int| 0 <= i < front.len() implies (#[trigger] front[i]).len() > 0 && forall|j: int|
            0 <= j < front[i].len() ==> front[i][j] != space() by {
            assert(front[i] == ws[i]);
        }
        lemma_join_words(front);
        let last = ws.last();
        assert(ws[ws.len() - 1] == last);
        lemma_words_split(join_spaced(front), last, seq![]);
        lemma_words_single(last, seq![]);
        assert(seq![] + last =~= last);
        assert(front + seq![last] =~= ws);
    }
}

/// What `echo` writes, read back as a command line, gives back what it was
/// asked to echo: the words of its text (before the final new line) are the
/// words of the line after the command's name.
pub proof fn lemma_echo_round_trip(line: Seq<u8>)
    requires
        words(line).len() >= 1,
    ensures
        words(join_spaced(words(line).drop_first())) == words(line).drop_first(),
{
    let ws = words(line);
    lemma_words_clean(line, seq![]);
    let args = ws.drop_first();
    assert forall|i: int| 0 <= i < args.len() implies (#[trigger] args[i]).len() > 0 && forall|j: int|
        0 <= j < args[i].len() ==> args[i][j] != space() by {
        assert(args[i] == ws[i + 1]);
    }
    lemma_join_words(args);
}

/// Every command `parallel` runs is non-empty and holds no `||`.
pub proof fn lemma_groups_clean(ws: Seq<Seq<u8>>, cur: Seq<Seq<u8>>)
    requires
        forall|j: int| 0 <= j < cur.len() ==> cur[j] != bars(),
    ensures
        forall|i: int|
            0 <= i < groups_from(ws, cur).len() ==> (#[trigger] groups_from(ws, cur)[i]).len() > 0
                && forall|j: int| 0 <= j < groups_from(ws, cur)[i].len() ==> groups_from(ws, cur)[i][j]
                != bars(),
    decreases ws.len(),
{
    if ws.len() == 0 {
        let g = groups_from(ws, cur);
        if cur.len() == 0 {
            assert(g =~= Seq::<Seq<Seq<u8>>>::empty());
        } else {
            assert(g =~= seq![cur]);
            assert(g[0] == cur);
        }
    } else if ws[0] == bars() {
        lemma_groups_clean(ws.drop_first(), seq![]);
        let head: Seq<Seq<Seq<u8>>> = if cur.len() == 0 { seq![] } else { seq![cur] };
        let rest = groups_from(ws.drop_first(), seq![]);
        assert(groups_from(ws, cur) == head + rest);
        assert forall|i: int| 0 <= i < (head + rest).len() implies (#[trigger] (head + rest)[i]).len() > 0
            && forall|j: int| 0 <= j < (head + rest)[i].len() ==> (head + rest)[i][j] != bars() by {
            if i < head.len() {
                assert((head + rest)[i] == cur);
            } else {
                assert((head + rest)[i] == rest[i - head.len()]);
            }
        }
    } else {
        let c2 = cur.push(ws[0]);
        assert forall|j: int| 0 <= j < c2.len() implies c2[j] != bars() by {
            if j < cur.len() {
                assert(c2[j] == cur[j]);
            }
        }
        lemma_groups_clean(ws.drop_first(), c2);
        assert(groups_from(ws, cur) == groups_from(ws.drop_first(), c2));
    }
}

} // verus!
