use vstd::prelude::*;

use crate::semantics::get_post;
use crate::semantics::InitState;

verus! {

/// A lazily initialized value kept in a heap allocation, which is made on
/// the first `get`.
pub struct Lazy<T: Sync> {
    ptr: Option<Box<T>>,
    state: InitState,
}

impl<T: Sync> View for Lazy<T> {
    type V = Option<T>;

    closed spec fn view(&self) -> Option<T> {
        match self.ptr {
            Some(b) => Some(*b),
            None => None,
        }
    }
}

impl<T: Sync> Lazy<T> {
    /// An allocation exists exactly when the initializer has returned.
    #[verifier::type_invariant]
    closed spec fn inv(self) -> bool {
        (self.state == InitState::Complete) == (self.ptr is Some)
    }

    /// How far the initialization has got.
    pub closed spec fn state(&self) -> InitState {
        self.state
    }

    /// An uninitialized cell: no allocation has been made yet.
    pub fn new() -> (l: Self)
        ensures
            l@ is None,
            l.state() == InitState::Incomplete,
    {
        Lazy { ptr: None, state: InitState::Incomplete }
    }

    /// Hands back the cell's value, evaluating `f` and boxing its result
    /// first, exactly once, if the cell is still empty. The cell is marked as
    /// running while `f` runs; a cell left running by an initializer that
    /// unwound is poisoned and not accepted.
    pub fn get<F>(&mut self, f: F) -> (r: &T)
        where F: FnOnce() -> T,
        requires
            old(self).state() != InitState::Running,
            old(self)@ is None ==> f.requires(()),
        ensures
            get_post(old(self)@, final(self)@, *r),
            old(self)@ is None ==> f.ensures((), *r),
            final(self).state() == InitState::Complete,
    {
        proof {
            use_type_invariant(&*self);
        }
        if self.state == InitState::Incomplete {
            self.state = InitState::Running;
            let b = Box::new(f());
            *self = Lazy { ptr: Some(b), state: InitState::Complete };
        }
        proof {
            use_type_invariant(&*self);
        }
        match &self.ptr {
            Some(b) => &**b,
            None => vstd::pervasive::unreached(),
        }
    }
}

} // verus!
