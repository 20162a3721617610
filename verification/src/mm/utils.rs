//! A small map from unsigned keys to values. It answers "the smallest key at
//! least `k`" as well as exact lookups.
//!
//! The map is a binary tree whose leaves hold the entries. An inner node's
//! key is the largest key in its left subtree; every key in its right subtree
//! is larger.
use vstd::prelude::*;

verus! {

/// A node of the tree: an inner node or a leaf holding one entry.
pub enum LightNode<T> {
    Node { left: Box<LightNode<T>>, right: Box<LightNode<T>>, key: usize },
    Leaf { key: usize, val: T },
}

impl<T> LightNode<T> {
    /// The entries below this node.
    pub open spec fn entries(self) -> Map<usize, T>
        decreases self,
    {
        match self {
            LightNode::Leaf { key, val } => Map::empty().insert(key, val),
            LightNode::Node { left, right, key: _ } => left.entries().union_prefer_right(
                right.entries(),
            ),
        }
    }

    /// Every inner node's key is the largest key on its left, and the keys on
    /// its right are larger.
    pub open spec fn wf(self) -> bool
        decreases self,
    {
        match self {
            LightNode::Leaf { .. } => true,
            LightNode::Node { left, right, key } => {
                &&& left.wf()
                &&& right.wf()
                &&& left.entries().dom().contains(key)
                &&& forall|k: usize| left.entries().dom().contains(k) ==> k <= key
                &&& forall|k: usize| right.entries().dom().contains(k) ==> k > key
            },
        }
    }

}

/// The entry with the smallest key at least `key`: its key and a clone of
/// its value. Since an inner node's key is the largest key on its left, the
/// search goes left exactly where `key` is at most the node's key.
fn search<T: Clone>(node: &LightNode<T>, key: usize) -> (r: Option<(usize, T)>)
    requires
        node.wf(),
    ensures
        r is None ==> forall|k: usize| node.entries().dom().contains(k) ==> k < key,
        r matches Some((k, v)) ==> {
            &&& node.entries().dom().contains(k)
            &&& k >= key
            &&& cloned(node.entries()[k], v)
            &&& forall|k2: usize| node.entries().dom().contains(k2) && k2 >= key ==> k <= k2
        },
    decreases node,
{
    match node {
        LightNode::Leaf { key: lk, val: lv } => {
            assert(node.entries().dom() =~= set![*lk]);
            assert(node.entries()[*lk] == *lv);
            if *lk >= key {
                let v = lv.clone();
                Some((*lk, v))
            } else {
                None
            }
        },
        LightNode::Node { left, right, key: lk } => {
            let ghost e = node.entries();
            assert(e == left.entries().union_prefer_right(right.entries()));
            assert forall|k: usize| e.dom().contains(k) <==> (left.entries().dom().contains(k)
                || right.entries().dom().contains(k)) by {}
            if *lk >= key {
                let r = search(left, key);
                proof {
                    assert(left.entries().dom().contains(*lk));
                    if r is Some {
                        let pair = r->0;
                        let k = pair.0;
                        assert(!right.entries().dom().contains(k));
                        assert(e[k] == left.entries()[k]);
                    }
                }
                r
            } else {
                let r = search(right, key);
                proof {
                    if r is Some {
                        let pair = r->0;
                        let k = pair.0;
                        assert(e[k] == right.entries()[k]);
                    }
                }
                r
            }
        },
    }
}

/// `node` with the entry `key => val` added; `key` must be new.
fn insert_node<T>(node: Box<LightNode<T>>, key: usize, val: T) -> (r: Box<LightNode<T>>)
    requires
        node.wf(),
        !node.entries().dom().contains(key),
    ensures
        r.wf(),
        r.entries() == node.entries().insert(key, val),
    decreases node,
{
    match *node {
        LightNode::Leaf { key: k, val: v } => {
            let new_leaf = Box::new(LightNode::Leaf { key, val });
            let old_leaf = Box::new(LightNode::Leaf { key: k, val: v });
            assert(new_leaf.wf());
            assert(new_leaf.entries().dom() =~= set![key]);
            assert(old_leaf.entries().dom() =~= set![k]);
            let r = if k > key {
                Box::new(LightNode::Node { left: new_leaf, right: old_leaf, key })
            } else {
                Box::new(LightNode::Node { left: old_leaf, right: new_leaf, key: k })
            };
            assert(r.entries() =~= node.entries().insert(key, val));
            r
        },
        LightNode::Node { left, right, key: k } => {
            if key <= k {
                let l = insert_node(left, key, val);
                let r = Box::new(LightNode::Node { left: l, right, key: k });
                assert(r.entries() =~= node.entries().insert(key, val));
                r
            } else {
                let rt = insert_node(right, key, val);
                let r = Box::new(LightNode::Node { left, right: rt, key: k });
                assert(r.entries() =~= node.entries().insert(key, val));
                r
            }
        },
    }
}

/// The map: its tree, if it has any entry, and its number of entries.
pub struct LightMap<T> {
    root: Option<Box<LightNode<T>>>,
    len: usize,
}

impl<T> LightMap<T> {
    /// The entries of the map.
    pub closed spec fn view(&self) -> Map<usize, T> {
        match self.root {
            None => Map::empty(),
            Some(n) => n.entries(),
        }
    }

    /// The tree is well formed and the count is the number of entries.
    pub closed spec fn wf(&self) -> bool {
        &&& match self.root {
            None => true,
            Some(n) => n.wf(),
        }
        &&& self@.dom().finite()
        &&& self.len == self@.dom().len()
    }

    /// An empty map.
    pub fn new() -> (r: LightMap<T>)
        ensures
            r.wf(),
            r@ == Map::<usize, T>::empty(),
    {
        LightMap { root: None, len: 0 }
    }

    /// Add the entry `k => v`, unless the map already has key `k`.
    pub fn add(&mut self, k: usize, v: T) where T: Clone
        requires
            old(self).wf(),
            old(self)@.dom().len() < usize::MAX,
        ensures
            final(self).wf(),
            final(self)@ == add_spec(old(self)@, k, v),
    {
        proof {
            lemma_entries_finite_opt(self.root);
        }
        if self.find(k).is_some() {
            return;
        }
        let root = self.root.take();
        let new_root = match root {
            None => {
                let r = Box::new(LightNode::Leaf { key: k, val: v });
                assert(r.entries() =~= Map::<usize, T>::empty().insert(k, v));
                r
            },
            Some(r) => insert_node(r, k, v),
        };
        self.root = Some(new_root);
        self.len = self.len + 1;
    }

    /// A clone of the value for key `key`, if the map has one.
    pub fn find(&self, key: usize) -> (r: Option<T>) where T: Clone
        requires
            self.wf(),
        ensures
            match r {
                None => !self@.dom().contains(key),
                Some(v) => self@.dom().contains(key) && cloned(self@[key], v),
            },
    {
        match self.find_smallest(key) {
            Some((k, v)) => if k == key {
                Some(v)
            } else {
                None
            },
            None => None,
        }
    }

    /// The entry with the smallest key at least `key`: its key and a clone of
    /// its value.
    pub fn find_smallest(&self, key: usize) -> (r: Option<(usize, T)>) where T: Clone
        requires
            self.wf(),
        ensures
            match r {
                None => forall|k: usize| self@.dom().contains(k) ==> k < key,
                Some((k, v)) => {
                    &&& self@.dom().contains(k)
                    &&& k >= key
                    &&& cloned(self@[k], v)
                    &&& forall|k2: usize| self@.dom().contains(k2) && k2 >= key ==> k <= k2
                },
            },
    {
        match &self.root {
            None => None,
            Some(n) => search(n, key),
        }
    }

    /// The number of entries.
    pub fn len(&self) -> (r: usize)
        requires
            self.wf(),
        ensures
            r == self@.dom().len(),
    {
        self.len
    }
}

/// The map after `add(k, v)` on `m`: unchanged where `k` is present, else with
/// the new entry.
pub open spec fn add_spec<T>(m: Map<usize, T>, k: usize, v: T) -> Map<usize, T> {
    if m.dom().contains(k) {
        m
    } else {
        m.insert(k, v)
    }
}

/// The map after adding the entries `ks[i] => vs[i]`, in order, to `m`.
pub open spec fn adds<T>(m: Map<usize, T>, ks: Seq<usize>, vs: Seq<T>) -> Map<usize, T>
    decreases ks.len(),
{
    if ks.len() == 0 {
        m
    } else {
        add_spec(adds(m, ks.drop_last(), vs.subrange(0, vs.len() - 1)), ks.last(), vs.last())
    }
}

/// An add grows the count of entries by one exactly when its key is new.
pub proof fn lemma_add_len<T>(m: Map<usize, T>, k: usize, v: T)
    requires
        m.dom().finite(),
    ensures
        add_spec(m, k, v).dom().finite(),
        add_spec(m, k, v).dom().len() == m.dom().len() + (if m.dom().contains(k) { 0int } else { 1int }),
{
}

/// Adding entries to an empty map in any order, keys possibly repeated,
/// leaves exactly their keys, and as many entries as there are distinct keys.
pub proof fn lemma_adds_len<T>(ks: Seq<usize>, vs: Seq<T>)
    requires
        ks.len() == vs.len(),
    ensures
        adds(Map::<usize, T>::empty(), ks, vs).dom() == ks.to_set(),
        adds(Map::<usize, T>::empty(), ks, vs).dom().finite(),
        adds(Map::<usize, T>::empty(), ks, vs).dom().len() == ks.to_set().len(),
    decreases ks.len(),
{
    if ks.len() == 0 {
        assert(ks.to_set() =~= Set::<usize>::empty());
    } else {
        let front = ks.drop_last();
        lemma_adds_len(front, vs.subrange(0, vs.len() - 1));
        let m = adds(Map::<usize, T>::empty(), front, vs.subrange(0, vs.len() - 1));
        lemma_add_len(m, ks.last(), vs.last());
        assert(ks.to_set() =~= front.to_set().insert(ks.last())) by {
            assert forall|x: usize| ks.contains(x) <==> (front.contains(x) || x == ks.last()) by {
                if ks.contains(x) {
                    let i = choose|i: int| 0 <= i < ks.len() && ks[i] == x;
                    if i < ks.len() - 1 {
                        assert(front[i] == x);
                    }
                }
                if front.contains(x) {
                    let i = choose|i: int| 0 <= i < front.len() && front[i] == x;
                    assert(ks[i] == x);
                }
                if x == ks.last() {
                    assert(ks[ks.len() - 1] == x);
                }
            }
        }
        assert(add_spec(m, ks.last(), vs.last()).dom() =~= m.dom().insert(ks.last()));
    }
}

/// Adding an entry under a new key makes an exact lookup of that key find it
/// and leaves every other key's entry as it was; a smallest-key-at-least
/// lookup of that key finds it too.
pub proof fn lemma_add_find<T>(m: Map<usize, T>, k: usize, v: T, other: usize)
    requires
        !m.dom().contains(k),
    ensures
        m.insert(k, v).dom().contains(k),
        m.insert(k, v)[k] == v,
        other != k ==> (m.insert(k, v).dom().contains(other) == m.dom().contains(other)),
        other != k && m.dom().contains(other) ==> m.insert(k, v)[other] == m[other],
        forall|k2: usize| m.insert(k, v).dom().contains(k2) && k2 >= k ==> k <= k2,
{
}

/// The entries below a node are finitely many.
proof fn lemma_entries_finite<T>(n: LightNode<T>)
    ensures
        n.entries().dom().finite(),
    decreases n,
{
    match n {
        LightNode::Leaf { key, val } => {
            assert(n.entries().dom() =~= set![key]);
        },
        LightNode::Node { left, right, key: _ } => {
            lemma_entries_finite(*left);
            lemma_entries_finite(*right);
            assert(n.entries().dom() =~= left.entries().dom().union(right.entries().dom()));
        },
    }
}

proof fn lemma_entries_finite_opt<T>(n: Option<Box<LightNode<T>>>)
    ensures
        n matches Some(b) ==> b.entries().dom().finite(),
{
    if let Some(b) = n {
        lemma_entries_finite(*b);
    }
}

} // verus!
