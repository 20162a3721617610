//! A cell that counts its borrows, so that a shared borrow and a mutable one
//! never overlap. Each borrow is a token that is handed back to the cell when
//! it ends; silent borrows are checked against the count but not counted.
use vstd::prelude::*;

verus! {

/// The borrow flag of a cell that nobody borrows.
pub const UNUSED: usize = 0;

/// The borrow flag of a cell that is borrowed mutably.
pub const WRITING: usize = usize::MAX;

/// The flag after a counted shared borrow, or `None` where it is refused.
pub open spec fn borrow_step(flag: usize) -> Option<usize> {
    if flag == WRITING {
        None
    } else {
        Some((flag + 1) as usize)
    }
}

/// The flag after a mutable borrow, or `None` where it is refused.
pub open spec fn borrow_mut_step(flag: usize) -> Option<usize> {
    if flag == UNUSED {
        Some(WRITING)
    } else {
        None
    }
}

/// Whether a counted shared borrow may end: one must be outstanding.
pub open spec fn can_release(flag: usize) -> bool {
    flag != UNUSED && flag != WRITING
}

/// A cell whose borrows are counted.
pub struct ProcRefCell<T> {
    value: T,
    borrow: usize,
}

/// A counted shared borrow of a `ProcRefCell`.
pub struct ProcRef {
    _token: (),
}

/// A mutable borrow of a `ProcRefCell`.
pub struct ProcRefMut {
    _token: (),
}

/// A shared borrow that was checked against the flag but not counted.
pub struct SilentProcRef {
    _token: (),
}

/// A mutable borrow that was checked against the flag but not counted.
pub struct SilentProcRefMut {
    _token: (),
}

impl<T> ProcRefCell<T> {
    /// The borrow flag: `UNUSED`, `WRITING`, or the number of shared borrows.
    pub closed spec fn flag(&self) -> usize {
        self.borrow
    }

    /// The value held.
    pub closed spec fn inner(&self) -> T {
        self.value
    }

    /// A cell holding `value` that nobody borrows.
    pub fn new(value: T) -> (r: ProcRefCell<T>)
        ensures
            r.inner() == value,
            r.flag() == UNUSED,
    {
        ProcRefCell { value, borrow: UNUSED }
    }

    /// Asserts that no counted borrow is outstanding.
    pub fn ensure_no_borrow(&self)
        requires
            self.flag() == UNUSED,
    {
    }

    /// Whether nobody borrows the cell.
    pub fn is_unused(&self) -> (r: bool)
        ensures
            r == (self.flag() == UNUSED),
    {
        self.borrow == UNUSED
    }

    /// A silent shared borrow, refused while the cell is borrowed mutably.
    pub fn try_silent_borrow(&self) -> (r: Option<SilentProcRef>)
        ensures
            r is Some <==> self.flag() != WRITING,
    {
        if self.borrow == WRITING {
            None
        } else {
            Some(SilentProcRef { _token: () })
        }
    }

    /// A silent mutable borrow, refused while any counted borrow is outstanding.
    pub fn try_silent_borrow_mut(&self) -> (r: Option<SilentProcRefMut>)
        ensures
            r is Some <==> self.flag() == UNUSED,
    {
        if self.borrow == UNUSED {
            Some(SilentProcRefMut { _token: () })
        } else {
            None
        }
    }

    /// The value, out of a cell that nobody borrows.
    pub fn unwrap(self) -> (r: T)
        requires
            self.flag() == UNUSED,
        ensures
            r == self.inner(),
    {
        self.value
    }

    /// A counted shared borrow, refused while the cell is borrowed mutably.
    pub fn try_borrow(&mut self) -> (r: Option<ProcRef>)
        ensures
            final(self).inner() == old(self).inner(),
            r is Some <==> borrow_step(old(self).flag()) is Some,
            r is Some ==> final(self).flag() == borrow_step(old(self).flag())->0,
            r is None ==> final(self).flag() == old(self).flag(),
    {
        if self.borrow == WRITING {
            None
        } else {
            self.borrow = self.borrow + 1;
            Some(ProcRef { _token: () })
        }
    }

    /// A counted shared borrow of a cell that is not borrowed mutably.
    pub fn borrow(&mut self) -> (r: ProcRef)
        requires
            old(self).flag() != WRITING,
        ensures
            final(self).inner() == old(self).inner(),
            final(self).flag() == borrow_step(old(self).flag())->0,
    {
        match self.try_borrow() {
            Some(p) => p,
            None => ProcRef { _token: () },
        }
    }

    /// A mutable borrow, refused while any counted borrow is outstanding.
    pub fn try_borrow_mut(&mut self) -> (r: Option<ProcRefMut>)
        ensures
            final(self).inner() == old(self).inner(),
            r is Some <==> borrow_mut_step(old(self).flag()) is Some,
            r is Some ==> final(self).flag() == borrow_mut_step(old(self).flag())->0,
            r is None ==> final(self).flag() == old(self).flag(),
    {
        if self.borrow == UNUSED {
            self.borrow = WRITING;
            Some(ProcRefMut { _token: () })
        } else {
            None
        }
    }

    /// A mutable borrow of a cell that nobody borrows.
    pub fn borrow_mut(&mut self) -> (r: ProcRefMut)
        requires
            old(self).flag() == UNUSED,
        ensures
            final(self).inner() == old(self).inner(),
            final(self).flag() == WRITING,
    {
        match self.try_borrow_mut() {
            Some(p) => p,
            None => ProcRefMut { _token: () },
        }
    }

    /// Ends a counted shared borrow.
    pub fn release(&mut self, token: ProcRef)
        requires
            can_release(old(self).flag()),
        ensures
            final(self).inner() == old(self).inner(),
            final(self).flag() == old(self).flag() - 1,
    {
        self.borrow = self.borrow - 1;
    }

    /// Ends a mutable borrow.
    pub fn release_mut(&mut self, token: ProcRefMut)
        requires
            old(self).flag() == WRITING,
        ensures
            final(self).inner() == old(self).inner(),
            final(self).flag() == UNUSED,
    {
        self.borrow = UNUSED;
    }

    /// The value, read through a shared borrow.
    pub fn get(&self, token: &ProcRef) -> (r: &T)
        ensures
            *r == self.inner(),
    {
        &self.value
    }

    /// The value, read through a silent shared borrow.
    pub fn get_silent(&self, token: &SilentProcRef) -> (r: &T)
        ensures
            *r == self.inner(),
    {
        &self.value
    }

    /// The value, written through a mutable borrow.
    pub fn get_mut(&mut self, token: &ProcRefMut) -> (r: &mut T)
        ensures
            *r == old(self).inner(),
            final(self).inner() == *final(r),
            final(self).flag() == old(self).flag(),
    {
        &mut self.value
    }

    /// The value, written through a silent mutable borrow.
    pub fn get_silent_mut(&mut self, token: &SilentProcRefMut) -> (r: &mut T)
        ensures
            *r == old(self).inner(),
            final(self).inner() == *final(r),
            final(self).flag() == old(self).flag(),
    {
        &mut self.value
    }
}

/// One more counted shared borrow of a cell that already has one.
pub fn clone_pref<T>(cell: &mut ProcRefCell<T>, orig: &ProcRef) -> (r: ProcRef)
    requires
        can_release(old(cell).flag()),
    ensures
        final(cell).inner() == old(cell).inner(),
        final(cell).flag() == old(cell).flag() + 1,
{
    cell.borrow = cell.borrow + 1;
    ProcRef { _token: () }
}

/// A mutable borrow excludes every other borrow, counted or not, until it ends.
pub proof fn lemma_mut_borrow_exclusive(flag: usize)
    requires
        borrow_mut_step(flag) is Some,
    ensures
        borrow_step(borrow_mut_step(flag)->0) is None,
        borrow_mut_step(borrow_mut_step(flag)->0) is None,
        !can_release(borrow_mut_step(flag)->0),
{
}

/// While a counted shared borrow is outstanding, no mutable borrow is granted,
/// and another shared borrow is.
pub proof fn lemma_shared_excludes_mut(flag: usize)
    requires
        can_release(flag),
    ensures
        borrow_mut_step(flag) is None,
        borrow_step(flag) is Some,
{
}

/// A shared borrow followed by its release gives the flag back, as long as
/// the count does not reach the value that marks a mutable borrow.
pub proof fn lemma_borrow_release(flag: usize)
    requires
        borrow_step(flag) is Some,
        borrow_step(flag)->0 != WRITING,
    ensures
        can_release(borrow_step(flag)->0),
        borrow_step(flag)->0 - 1 == flag,
{
}

/// A mutable borrow followed by its release leaves the cell unused, as before.
pub proof fn lemma_borrow_mut_release(flag: usize)
    requires
        borrow_mut_step(flag) is Some,
    ensures
        flag == UNUSED,
        borrow_mut_step(flag)->0 == WRITING,
{
}

} // verus!
