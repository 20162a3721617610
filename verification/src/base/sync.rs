//! A one-shot initialisation guard.
use vstd::prelude::*;

verus! {

/// The routine has not run yet.
pub const UNUSED: usize = 0;

/// The routine is running.
pub const INITIALIZING: usize = 1;

/// The routine has run.
pub const INITIALIZED: usize = 2;

/// Runs an initialisation routine once and only once.
pub struct SpinOnce {
    state: usize,
}

impl SpinOnce {
    /// Between calls the guard is either unused or initialised.
    pub open spec fn wf(&self) -> bool {
        self.spec_state() == UNUSED || self.spec_state() == INITIALIZED
    }

    pub closed spec fn spec_state(&self) -> usize {
        self.state
    }

    /// Whether the routine has run.
    pub open spec fn done(&self) -> bool {
        self.spec_state() == INITIALIZED
    }

    /// A guard whose routine has not run.
    pub fn new() -> (r: SpinOnce)
        ensures
            r.wf(),
            !r.done(),
    {
        SpinOnce { state: UNUSED }
    }

    /// Run `f` if no routine has run yet. Returns whether `f` was run.
    pub fn try_it<F: Fn()>(&mut self, f: F) -> (r: bool)
        requires
            old(self).wf(),
            f.requires(()),
        ensures
            final(self).wf(),
            final(self).done(),
            r == !old(self).done(),
            r ==> call_ensures(f, (), ()),
            !r ==> *final(self) == *old(self),
    {
        if self.state == INITIALIZED {
            false
        } else {
            self.state = INITIALIZING;
            f();
            self.state = INITIALIZED;
            true
        }
    }

    /// Run `f` if no routine has run yet; afterwards some routine has run.
    pub fn doit<F: Fn()>(&mut self, f: F)
        requires
            old(self).wf(),
            f.requires(()),
        ensures
            final(self).wf(),
            final(self).done(),
            !old(self).done() ==> call_ensures(f, (), ()),
            old(self).done() ==> *final(self) == *old(self),
    {
        self.try_it(f);
    }
}

/// The guard states `ss` of a run of calls of `doit` (or `try_it`) in a row:
/// each call starts from the state the one before left, and (as their
/// contracts say) leaves the guard done, and leaves it unchanged where it
/// already was done.
pub open spec fn calls_in_a_row(ss: Seq<SpinOnce>) -> bool {
    forall|i: int|
        0 <= i < ss.len() - 1 ==> {
            &&& (#[trigger] ss[i + 1]).wf()
            &&& ss[i + 1].done()
            &&& ss[i].done() ==> ss[i + 1] == ss[i]
        }
}

/// On a fresh guard, of any number of calls in a row only the first finds it
/// not done, so only the first runs its routine; every later call finds it
/// done and changes nothing, and after each call the guard is done.
pub proof fn lemma_doit_once(ss: Seq<SpinOnce>)
    requires
        ss.len() >= 2,
        ss[0].wf(),
        !ss[0].done(),
        calls_in_a_row(ss),
    ensures
        forall|i: int| 1 <= i < ss.len() ==> (#[trigger] ss[i]).done(),
        forall|i: int| 1 <= i < ss.len() - 1 ==> #[trigger] ss[i + 1] == ss[i],
{
    assert forall|i: int| 1 <= i < ss.len() implies (#[trigger] ss[i]).done() by {
        assert(ss[(i - 1) + 1].done());
    }
    assert forall|i: int| 1 <= i < ss.len() - 1 implies #[trigger] ss[i + 1] == ss[i] by {
        assert(ss[i].done());
    }
}

} // verus!
