//! Path names: cleaning them up, and walking them through directories to the
//! directory that holds the last component.
use vstd::prelude::*;
use crate::base::errno::{Errno, KResult};
use crate::fs::InodeNum;
use crate::fs::ramfs::{
    RamFS,
    NodeView,
    dot,
    lookup_spec,
    in_use,
    dir_find,
    next_free,
    empty_reg,
    with_entry,
    nodes_wf,
    lemma_lookup_in_use,
    MAX_INODES,
    ROOT_INODE_NUM,
};

verus! {

/// The byte `/`.
pub open spec fn slash() -> u8 {
    0x2fu8
}

/// The byte `.`.
pub open spec fn period() -> u8 {
    0x2eu8
}

/// `s` with repeated trailing slashes reduced to one.
pub open spec fn strip_trailing(s: Seq<u8>) -> Seq<u8>
    decreases s.len(),
{
    if s.len() >= 2 && s[s.len() - 1] == slash() && s[s.len() - 2] == slash() {
        strip_trailing(s.drop_last())
    } else {
        s
    }
}

/// `s` with repeated leading slashes reduced to one.
pub open spec fn strip_leading(s: Seq<u8>) -> Seq<u8>
    decreases s.len(),
{
    if s.len() >= 2 && s[0] == slash() && s[1] == slash() {
        strip_leading(s.drop_first())
    } else {
        s
    }
}

/// `s` without its leading slashes.
pub open spec fn trim_left_slashes(s: Seq<u8>) -> Seq<u8>
    decreases s.len(),
{
    if s.len() >= 1 && s[0] == slash() {
        trim_left_slashes(s.drop_first())
    } else {
        s
    }
}

/// Dropping leading slashes keeps a suffix.
pub proof fn lemma_trim_left_slashes(s: Seq<u8>)
    ensures
        trim_left_slashes(s).len() <= s.len(),
        trim_left_slashes(s) == s.subrange(s.len() - trim_left_slashes(s).len(), s.len() as int),
    decreases s.len(),
{
    if s.len() >= 1 && s[0] == slash() {
        lemma_trim_left_slashes(s.drop_first());
        let t = trim_left_slashes(s.drop_first());
        assert(s.drop_first().subrange(s.len() - 1 - t.len(), s.len() - 1) =~= s.subrange(
            s.len() - t.len(),
            s.len() as int,
        ));
    } else {
        assert(s.subrange(0, s.len() as int) =~= s);
    }
}

/// `s` without its leading `./` prefixes (each with the slashes after it).
pub open spec fn strip_dot_slash(s: Seq<u8>) -> Seq<u8>
    decreases s.len(),
{
    if s.len() >= 2 && s[0] == period() && s[1] == slash() {
        proof {
            lemma_trim_left_slashes(s.drop_first());
        }
        strip_dot_slash(trim_left_slashes(s.drop_first()))
    } else {
        s
    }
}

/// A path name with repeated leading and trailing slashes reduced to one and
/// leading `./` removed.
pub open spec fn trim_spec(s: Seq<u8>) -> Seq<u8> {
    strip_dot_slash(strip_leading(strip_trailing(s)))
}

/// Each step of trimming keeps a part of the name that is no longer.
pub proof fn lemma_trim_shorter(s: Seq<u8>)
    ensures
        strip_trailing(s).len() <= s.len(),
        strip_leading(s).len() <= s.len(),
        strip_dot_slash(s).len() <= s.len(),
        trim_spec(s).len() <= s.len(),
{
    lemma_strip_trailing_shorter(s);
    lemma_strip_leading_shorter(s);
    lemma_strip_dot_slash_shorter(s);
    lemma_strip_leading_shorter(strip_trailing(s));
    lemma_strip_dot_slash_shorter(strip_leading(strip_trailing(s)));
}

/// Reducing trailing slashes keeps a name no longer.
proof fn lemma_strip_trailing_shorter(s: Seq<u8>)
    ensures
        strip_trailing(s).len() <= s.len(),
    decreases s.len(),
{
    if s.len() >= 2 && s[s.len() - 1] == slash() && s[s.len() - 2] == slash() {
        lemma_strip_trailing_shorter(s.drop_last());
    }
}

/// Reducing leading slashes keeps a name no longer.
proof fn lemma_strip_leading_shorter(s: Seq<u8>)
    ensures
        strip_leading(s).len() <= s.len(),
    decreases s.len(),
{
    if s.len() >= 2 && s[0] == slash() && s[1] == slash() {
        lemma_strip_leading_shorter(s.drop_first());
    }
}

/// Removing leading `./` keeps a name no longer.
proof fn lemma_strip_dot_slash_shorter(s: Seq<u8>)
    ensures
        strip_dot_slash(s).len() <= s.len(),
    decreases s.len(),
{
    if s.len() >= 2 && s[0] == period() && s[1] == slash() {
        lemma_trim_left_slashes(s.drop_first());
        lemma_strip_dot_slash_shorter(trim_left_slashes(s.drop_first()));
    }
}

/// Remove repeated leading and trailing slashes, and leading `./`, from a
/// path name.
pub fn trim_name(n: &[u8]) -> (r: &[u8])
    ensures
        r@ == trim_spec(n@),
{
    let s = n;
    let mut a: usize = 0;
    let mut b: usize = s.len();
    // Repeated trailing slashes.
    assert(s@.subrange(0, b as int) =~= s@);
    while b >= 2 && s[b - 1] == 0x2f && s[b - 2] == 0x2f
        invariant
            b <= s@.len(),
            strip_trailing(s@) == strip_trailing(s@.subrange(0, b as int)),
        decreases b,
    {
        proof {
            assert(s@.subrange(0, b as int).drop_last() =~= s@.subrange(0, b - 1));
        }
        b = b - 1;
    }
    let ghost t1 = s@.subrange(0, b as int);
    assert(strip_trailing(s@) == t1);
    // Repeated leading slashes.
    assert(t1.subrange(0, b as int) =~= t1);
    while b - a >= 2 && s[a] == 0x2f && s[a + 1] == 0x2f
        invariant
            a <= b <= s@.len(),
            t1 == s@.subrange(0, b as int),
            strip_leading(t1) == strip_leading(s@.subrange(a as int, b as int)),
        decreases b - a,
    {
        proof {
            assert(s@.subrange(a as int, b as int).drop_first() =~= s@.subrange(a + 1, b as int));
        }
        a = a + 1;
    }
    let ghost t2 = s@.subrange(a as int, b as int);
    assert(strip_leading(t1) == t2);
    // Leading `./`, each with the slashes after it.
    while b - a >= 2 && s[a] == 0x2e && s[a + 1] == 0x2f
        invariant
            a <= b <= s@.len(),
            strip_dot_slash(t2) == strip_dot_slash(s@.subrange(a as int, b as int)),
        decreases b - a,
    {
        let ghost u = s@.subrange(a as int, b as int);
        let ghost a_outer = a;
        a = a + 1;
        proof {
            assert(u.drop_first() =~= s@.subrange(a as int, b as int));
        }
        let ghost a_start = a;
        assert(a_start == a_outer + 1);
        while a < b && s[a] == 0x2f
            invariant
                a_outer < a_start <= a <= b <= s@.len(),
                u.len() >= 2,
                u[0] == period(),
                u[1] == slash(),
                strip_dot_slash(t2) == strip_dot_slash(u),
                trim_left_slashes(u.drop_first()) == trim_left_slashes(s@.subrange(a as int, b as int)),
            decreases b - a,
        {
            proof {
                assert(s@.subrange(a as int, b as int).drop_first() =~= s@.subrange(a + 1, b as int));
            }
            a = a + 1;
        }
    }
    let r = slice_range(s, a, b);
    r
}

/// The bytes `s[a..b]`.
fn slice_range(s: &[u8], a: usize, b: usize) -> (r: &[u8])
    requires
        a <= b <= s@.len(),
    ensures
        r@ == s@.subrange(a as int, b as int),
{
    &s[a..b]
}

/// The components of `s` between slashes, as splitting at each slash gives
/// them: one more than there are slashes, empty ones included.
pub open spec fn split_spec(s: Seq<u8>) -> Seq<Seq<u8>>
    decreases s.len(),
{
    if s.len() == 0 {
        seq![Seq::<u8>::empty()]
    } else {
        let rest = split_spec(s.drop_first());
        if s[0] == slash() {
            seq![Seq::<u8>::empty()] + rest
        } else {
            rest.update(0, seq![s[0]] + rest[0])
        }
    }
}

/// What looking `name` up in vnode `cp` of `s` finds: a directory looks it
/// up, any other vnode is no directory.
pub open spec fn lookup_any(s: Seq<Option<NodeView>>, cp: InodeNum, name: Seq<u8>) -> KResult<InodeNum> {
    if s[cp as int] matches Some(NodeView::Directory { .. }) {
        lookup_spec(s, cp, name)
    } else {
        Err(Errno::ENOTDIR)
    }
}

/// Walking `comps` from vnode `cp` with the pending name `next`: an empty
/// component is skipped; `.` becomes the pending name; any other component
/// first looks the pending name up from `cp`, then becomes the pending name.
pub open spec fn walk(
    s: Seq<Option<NodeView>>,
    comps: Seq<Seq<u8>>,
    cp: InodeNum,
    next: Seq<u8>,
) -> KResult<(InodeNum, Seq<u8>)>
    decreases comps.len(),
{
    if comps.len() == 0 {
        Ok((cp, next))
    } else {
        let n = comps[0];
        if n.len() == 0 {
            walk(s, comps.drop_first(), cp, next)
        } else if n == dot() {
            walk(s, comps.drop_first(), cp, n)
        } else {
            match lookup_any(s, cp, next) {
                Ok(c2) => walk(s, comps.drop_first(), c2, n),
                Err(e) => Err(e),
            }
        }
    }
}

/// The directory to look the last component of `name` up in, and that
/// component, resolving from `base` (or from the root, for a name that
/// starts with a slash).
pub open spec fn dir_namev_spec(s: Seq<Option<NodeView>>, name: Seq<u8>, base: InodeNum) -> KResult<
    (InodeNum, Seq<u8>),
>
    decreases name.len(),
{
    let t = trim_spec(name);
    if t.len() == 0 {
        Err(Errno::ENOENT)
    } else if t == seq![slash()] {
        Ok((ROOT_INODE_NUM, dot()))
    } else if t == seq![period(), slash()] {
        Ok((base, dot()))
    } else if t[0] == slash() {
        proof {
            lemma_trim_shorter(name);
        }
        dir_namev_spec(s, t.drop_first(), ROOT_INODE_NUM)
    } else {
        walk(
            s,
            split_spec(t) + (if t.last() == slash() { seq![dot()] } else { Seq::empty() }),
            base,
            t,
        )
    }
}

/// Splitting at the first slash of `u`, at `k`, gives the part before it and
/// then the components of the rest.
pub proof fn lemma_split_first_slash(u: Seq<u8>, k: int)
    requires
        0 <= k < u.len(),
        u[k] == slash(),
        forall|m: int| 0 <= m < k ==> u[m] != slash(),
    ensures
        split_spec(u) == seq![u.subrange(0, k)] + split_spec(u.subrange(k + 1, u.len() as int)),
    decreases k,
{
    if k == 0 {
        assert(u.drop_first() =~= u.subrange(1, u.len() as int));
        assert(u.subrange(0, 0) =~= Seq::<u8>::empty());
    } else {
        let v = u.drop_first();
        lemma_split_first_slash(v, k - 1);
        assert(v.subrange(k, v.len() as int) =~= u.subrange(k + 1, u.len() as int));
        let rest = split_spec(v);
        assert(rest[0] == v.subrange(0, k - 1));
        assert(seq![u[0]] + v.subrange(0, k - 1) =~= u.subrange(0, k));
        assert(rest.update(0, seq![u[0]] + rest[0]) =~= seq![u.subrange(0, k)] + split_spec(
            u.subrange(k + 1, u.len() as int),
        ));
    }
}

/// A name without slashes is one component.
pub proof fn lemma_split_no_slash(u: Seq<u8>)
    requires
        forall|m: int| 0 <= m < u.len() ==> u[m] != slash(),
    ensures
        split_spec(u) == seq![u],
    decreases u.len(),
{
    if u.len() > 0 {
        let v = u.drop_first();
        lemma_split_no_slash(v);
        assert(seq![u[0]] + v =~= u);
        assert(split_spec(v).update(0, seq![u[0]] + split_spec(v)[0]) =~= seq![u]);
    } else {
        assert(u =~= Seq::<u8>::empty());
    }
}

/// The bytes of `.`.
fn dot_vec() -> (r: Vec<u8>)
    ensures
        r@ == dot(),
{
    let mut v: Vec<u8> = Vec::new();
    v.push(0x2e);
    assert(v@ =~= dot());
    v
}

/// A result with its name taken as bytes.
pub open spec fn view_result(r: KResult<(InodeNum, Vec<u8>)>) -> KResult<(InodeNum, Seq<u8>)> {
    match r {
        Ok((c, v)) => Ok((c, v@)),
        Err(e) => Err(e),
    }
}

impl RamFS {
    /// Look `name` up in vnode `cp`: a directory looks it up, any other
    /// vnode is no directory.
    fn lookup_any(&self, cp: InodeNum, name: &[u8]) -> (r: KResult<InodeNum>)
        requires
            self.wf(),
            in_use(self.nodes(), cp),
        ensures
            r == lookup_any(self.nodes(), cp, name@),
            r matches Ok(x) ==> in_use(self.nodes(), x),
    {
        if self.is_directory(cp) {
            proof {
                lemma_lookup_in_use(self.nodes(), cp, name@);
            }
            self.lookup(cp, name)
        } else {
            Err(Errno::ENOTDIR)
        }
    }

    /// Walk the components of the trimmed name `t` from `base`.
    fn walk_name(&self, t: &[u8], base: InodeNum) -> (r: KResult<(InodeNum, Vec<u8>)>)
        requires
            self.wf(),
            in_use(self.nodes(), base),
            t@.len() > 0,
        ensures
            view_result(r) == walk(
                self.nodes(),
                split_spec(t@) + (if t@.last() == slash() { seq![dot()] } else { Seq::empty() }),
                base,
                t@,
            ),
    {
        let ghost s = self.nodes();
        let ghost end: Seq<Seq<u8>> = if t@.last() == slash() { seq![dot()] } else { Seq::empty() };
        let ghost goal = walk(s, split_spec(t@) + end, base, t@);
        let mut cp = base;
        let mut next: Vec<u8> = vstd::slice::slice_to_vec(t);
        let mut i: usize = 0;
        let mut done = false;
        assert(t@.subrange(0, t@.len() as int) =~= t@);
        while !done
            invariant
                self.wf(),
                s == self.nodes(),
                i <= t@.len(),
                in_use(s, cp),
                end == (if t@.last() == slash() { seq![dot()] } else { Seq::<Seq<u8>>::empty() }),
                goal == walk(s, split_spec(t@) + end, base, t@),
                !done ==> goal == walk(s, split_spec(t@.subrange(i as int, t@.len() as int)) + end, cp, next@),
                done ==> goal == walk(s, end, cp, next@),
            decreases t@.len() - i + (if done { 0int } else { 1int }),
        {
            let mut j = i;
            while j < t.len() && t[j] != 0x2f
                invariant
                    i <= j <= t@.len(),
                    forall|m: int| i <= m < j ==> t@[m] != slash(),
                decreases t@.len() - j,
            {
                j = j + 1;
            }
            let ghost u = t@.subrange(i as int, t@.len() as int);
            let ghost comp = t@.subrange(i as int, j as int);
            let ghost rest_comps: Seq<Seq<u8>>;
            proof {
                if j < t@.len() {
                    lemma_split_first_slash(u, j - i);
                    assert(u.subrange(0, j - i) =~= comp);
                    assert(u.subrange(j - i + 1, u.len() as int) =~= t@.subrange(j + 1, t@.len() as int));
                    rest_comps = split_spec(t@.subrange(j + 1, t@.len() as int)) + end;
                } else {
                    assert(u =~= comp);
                    lemma_split_no_slash(u);
                    rest_comps = end;
                }
                assert((seq![comp] + rest_comps).drop_first() =~= rest_comps);
                assert(split_spec(u) + end =~= seq![comp] + rest_comps);
            }
            let c = slice_range(t, i, j);
            if j == i {
                // An empty component is skipped.
            } else if j - i == 1 && t[i] == 0x2e {
                proof {
                    assert(comp =~= dot());
                }
                next = dot_vec();
            } else {
                proof {
                    assert(comp != dot()) by {
                        if comp == dot() {
                            assert(comp.len() == 1);
                            assert(comp[0] == t@[i as int]);
                            assert(dot()[0] == period());
                        }
                    }
                }
                match self.lookup_any(cp, next.as_slice()) {
                    Ok(c2) => {
                        cp = c2;
                        next = vstd::slice::slice_to_vec(c);
                    },
                    Err(e) => {
                        proof {
                            let cs = seq![comp] + rest_comps;
                            assert(cs[0] == comp);
                            assert(comp.len() != 0);
                            assert(split_spec(u) + end == cs);
                            assert(goal == walk(s, cs, cp, next@));
                        }
                        return Err(e);
                    },
                }
            }
            if j == t.len() {
                done = true;
                i = j;
            } else {
                i = j + 1;
            }
        }
        proof {
            if t@.last() == slash() {
                assert(end[0] == dot());
                assert(dot().len() == 1);
                assert(end.drop_first() =~= Seq::<Seq<u8>>::empty());
                assert(goal == walk(s, end.drop_first(), cp, dot()));
            } else {
                assert(end =~= Seq::<Seq<u8>>::empty());
            }
        }
        if t[t.len() - 1] == 0x2f {
            next = dot_vec();
        }
        Ok((cp, next))
    }

    /// The directory to look the last component of `name` up in, and that
    /// component: resolved from `base`, or from the root for a name that
    /// starts with a slash. `ENOENT` for an empty name; any lookup on the way
    /// can fail, `ENOTDIR` where a component is not a directory.
    pub fn dir_namev(&self, name: &[u8], base: InodeNum) -> (r: KResult<(InodeNum, Vec<u8>)>)
        requires
            self.wf(),
            in_use(self.nodes(), base),
        ensures
            view_result(r) == dir_namev_spec(self.nodes(), name@, base),
        decreases name@.len(),
    {
        let t = trim_name(name);
        proof {
            lemma_trim_shorter(name@);
        }
        if t.len() == 0 {
            Err(Errno::ENOENT)
        } else if t.len() == 1 && t[0] == 0x2f {
            proof {
                assert(t@ =~= seq![slash()]);
            }
            Ok((ROOT_INODE_NUM, dot_vec()))
        } else if t.len() == 2 && t[0] == 0x2e && t[1] == 0x2f {
            proof {
                assert(t@ =~= seq![period(), slash()]);
            }
            Ok((base, dot_vec()))
        } else if t[0] == 0x2f {
            proof {
                assert(t@ != seq![slash()]);
                assert(t@ != seq![period(), slash()]);
                assert(in_use(self.nodes(), ROOT_INODE_NUM));
            }
            let rest = slice_range(t, 1, t.len());
            proof {
                assert(rest@ =~= t@.drop_first());
            }
            self.dir_namev(rest, ROOT_INODE_NUM)
        } else {
            proof {
                if t@ == seq![slash()] {
                    assert(t@[0] == slash());
                }
                if t@ == seq![period(), slash()] {
                    assert(t@.len() == 2);
                }
            }
            self.walk_name(t, base)
        }
    }
}

/// Walking a name from a vnode in use ends at a vnode in use.
pub proof fn lemma_walk_in_use(s: Seq<Option<NodeView>>, comps: Seq<Seq<u8>>, cp: InodeNum, next: Seq<u8>)
    requires
        nodes_wf(s),
        in_use(s, cp),
    ensures
        walk(s, comps, cp, next) matches Ok((c, _)) ==> in_use(s, c),
    decreases comps.len(),
{
    if comps.len() > 0 {
        let n = comps[0];
        if n.len() == 0 || n == dot() {
            lemma_walk_in_use(s, comps.drop_first(), cp, if n.len() == 0 { next } else { n });
        } else {
            if s[cp as int] matches Some(NodeView::Directory { .. }) {
                lemma_lookup_in_use(s, cp, next);
            }
            if let Ok(c2) = lookup_any(s, cp, next) {
                lemma_walk_in_use(s, comps.drop_first(), c2, n);
            }
        }
    }
}

/// Resolving a name from a vnode in use ends at a vnode in use.
pub proof fn lemma_dir_namev_in_use(s: Seq<Option<NodeView>>, name: Seq<u8>, base: InodeNum)
    requires
        nodes_wf(s),
        in_use(s, base),
    ensures
        dir_namev_spec(s, name, base) matches Ok((c, _)) ==> in_use(s, c),
    decreases name.len(),
{
    let t = trim_spec(name);
    lemma_trim_shorter(name);
    if t.len() == 0 {
    } else if t == seq![slash()] {
    } else if t == seq![period(), slash()] {
    } else if t[0] == slash() {
        lemma_dir_namev_in_use(s, t.drop_first(), ROOT_INODE_NUM);
    } else {
        lemma_walk_in_use(
            s,
            split_spec(t) + (if t.last() == slash() { seq![dot()] } else { Seq::empty() }),
            base,
            t,
        );
    }
}

impl RamFS {
    /// The vnode `name` names from `base`. Where its last component is missing
    /// from an existing directory and `create` is set, an empty regular file
    /// is made there.
    pub fn open_namev(&mut self, name: &[u8], create: bool, base: InodeNum) -> (r: KResult<InodeNum>)
        requires
            old(self).wf(),
            in_use(old(self).nodes(), base),
        ensures
            final(self).wf(),
            final(self).last_spec() == old(self).last_spec(),
            match dir_namev_spec(old(self).nodes(), name@, base) {
                Err(e) => r == Err::<InodeNum, Errno>(e) && final(self).nodes() == old(self).nodes(),
                Ok((p, f)) => match lookup_any(old(self).nodes(), p, f) {
                    Ok(x) => r == Ok::<InodeNum, Errno>(x) && final(self).nodes() == old(self).nodes(),
                    Err(e) => if e == Errno::ENOENT && create {
                        match next_free(old(self).nodes(), old(self).last_spec(), 1) {
                            Some(c) => r == Ok::<InodeNum, Errno>(c as InodeNum) && final(self).nodes()
                                == old(self).nodes().update(c, Some(empty_reg())).update(
                                p as int,
                                Some(with_entry(old(self).nodes()[p as int]->0, f, c as InodeNum)),
                            ),
                            None => r == Err::<InodeNum, Errno>(Errno::ENOSPC) && final(self).nodes()
                                == old(self).nodes(),
                        }
                    } else {
                        r == Err::<InodeNum, Errno>(e) && final(self).nodes() == old(self).nodes()
                    },
                },
            },
    {
        proof {
            lemma_dir_namev_in_use(self.nodes(), name@, base);
        }
        let (parent, fname) = match self.dir_namev(name, base) {
            Ok(pf) => pf,
            Err(e) => return Err(e),
        };
        match self.lookup_any(parent, fname.as_slice()) {
            Ok(x) => Ok(x),
            Err(e) => {
                if e == Errno::ENOENT && create {
                    proof {
                        assert(fname@ != dot());
                        assert(fname@ != crate::fs::ramfs::dotdot());
                        assert(dir_find(old(self).entries_of(parent as int), fname@) is None);
                    }
                    self.create(parent, fname.as_slice())
                } else {
                    Err(e)
                }
            },
        }
    }
}

} // verus!
