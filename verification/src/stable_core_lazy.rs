use vstd::prelude::*;

use crate::semantics::get_post;

verus! {

/// No thread has started to initialize the value.
pub const UNINIT: usize = 0;

/// A thread is evaluating the initializer.
pub const INITING: usize = 1;

/// The value is stored.
pub const INITED: usize = 2;

/// What a caller of `get` does, once it has swapped `UNINIT` for `INITING`
/// and seen the status that was there before.
#[derive(PartialEq, Eq, Structural, Debug, Clone, Copy)]
pub enum Step {
    /// The caller won the race: it evaluates the initializer and stores the value.
    Initialize,
    /// Another caller is initializing: wait until the status leaves `INITING`.
    Wait,
    /// The value is already stored: read it.
    Read,
}

/// The step that follows from the status seen when swapping `UNINIT` for
/// `INITING`; any status other than the first two counts as initialized.
pub fn step_for(observed: usize) -> (s: Step)
    ensures
        observed == UNINIT ==> s == Step::Initialize,
        observed == INITING ==> s == Step::Wait,
        observed != UNINIT && observed != INITING ==> s == Step::Read,
{
    if observed == UNINIT {
        Step::Initialize
    } else if observed == INITING {
        Step::Wait
    } else {
        Step::Read
    }
}

/// A lazily initialized value stored in place, guarded by a status word
/// that goes from `UNINIT` through `INITING` to `INITED`.
pub struct Lazy<T: Sync> {
    status: usize,
    value: Option<T>,
}

impl<T: Sync> View for Lazy<T> {
    type V = Option<T>;

    closed spec fn view(&self) -> Option<T> {
        self.value
    }
}

impl<T: Sync> Lazy<T> {
    /// No value is stored before initialization starts, and one is stored
    /// once it has finished.
    #[verifier::type_invariant]
    closed spec fn inv(self) -> bool {
        &&& self.status <= INITED
        &&& self.status == UNINIT ==> self.value is None
        &&& self.status == INITED ==> self.value is Some
    }

    /// The current status word.
    pub closed spec fn status(&self) -> usize {
        self.status
    }

    /// An uninitialized cell.
    pub fn new() -> (l: Self)
        ensures
            l@ is None,
            l.status() == UNINIT,
    {
        Lazy { status: UNINIT, value: None }
    }

    /// Replaces the status with `new` if it equals `current`, and hands back
    /// the status found.
    fn compare_and_swap(&mut self, current: usize, new: usize) -> (found: usize)
        requires
            new <= INITED,
            current == UNINIT ==> new != INITED,
            current == INITED ==> new != UNINIT,
            current == INITING && old(self)@ is None ==> new != INITED,
            current == INITING && old(self)@ is Some ==> new != UNINIT,
        ensures
            found == old(self).status(),
            final(self)@ == old(self)@,
            final(self).status() == (if found == current { new } else { found }),
    {
        proof {
            use_type_invariant(&*self);
        }
        let found = self.status;
        if found == current {
            self.status = new;
        }
        found
    }

    /// Hands back the cell's value, evaluating `init` first, exactly once,
    /// if initialization has not started. A cell left in `INITING` by an
    /// initializer that did not return would make every later call wait
    /// forever, so such a cell is not accepted.
    pub fn get<F>(&mut self, init: F) -> (r: &T)
        where F: FnOnce() -> T,
        requires
            old(self).status() != INITING,
            old(self)@ is None ==> init.requires(()),
        ensures
            get_post(old(self)@, final(self)@, *r),
            old(self)@ is None ==> init.ensures((), *r),
            final(self).status() == INITED,
    {
        proof {
            use_type_invariant(&*self);
        }
        let status = self.compare_and_swap(UNINIT, INITING);
        match step_for(status) {
            Step::Initialize => {
                let v = init();
                self.value = Some(v);
                self.status = INITED;
            },
            Step::Wait => vstd::pervasive::unreached(),
            Step::Read => {},
        }
        proof {
            use_type_invariant(&*self);
        }
        match &self.value {
            Some(x) => x,
            None => vstd::pervasive::unreached(),
        }
    }
}

} // verus!
