use vstd::prelude::*;

use crate::semantics::get_post;
use crate::semantics::InitState;

verus! {

/// A lazily initialized value: empty until the first `get`, which evaluates
/// the initializer and keeps its result for every later `get`.
pub struct Lazy<T: Sync> {
    value: Option<T>,
    state: InitState,
}

impl<T: Sync> View for Lazy<T> {
    type V = Option<T>;

    closed spec fn view(&self) -> Option<T> {
        self.value
    }
}

impl<T: Sync> Lazy<T> {
    /// A value is stored exactly when the initializer has returned.
    #[verifier::type_invariant]
    closed spec fn inv(self) -> bool {
        (self.state == InitState::Complete) == (self.value is Some)
    }

    /// How far the initialization has got.
    pub closed spec fn state(&self) -> InitState {
        self.state
    }

    /// An uninitialized cell.
    pub fn new() -> (l: Self)
        ensures
            l@ is None,
            l.state() == InitState::Incomplete,
    {
        Lazy { value: None, state: InitState::Incomplete }
    }

    /// Whether the initializer has returned and its value is stored.
    pub fn is_initialized(&self) -> (b: bool)
        ensures
            b == (self@ is Some),
            b == (self.state() == InitState::Complete),
    {
        proof {
            use_type_invariant(self);
        }
        self.state == InitState::Complete
    }

    /// The stored value of an initialized cell.
    pub fn stored(&self) -> (r: &T)
        requires
            self@ is Some,
        ensures
            self@ == Some(*r),
    {
        match &self.value {
            Some(x) => x,
            None => vstd::pervasive::unreached(),
        }
    }

    /// Hands back the cell's value, evaluating `f` first, exactly once, if
    /// the cell is still empty. The cell is marked as running while `f`
    /// runs; a cell left running by an initializer that unwound is poisoned
    /// and not accepted.
    pub fn get<F>(&mut self, f: F) -> (r: &T)
        where F: FnOnce() -> T,
        requires
            old(self).state() != InitState::Running,
            old(self)@ is None ==> f.requires(()),
        ensures
            get_post(old(self)@, final(self)@, *r),
            old(self)@ is None ==> f.ensures((), *r),
            final(self).state() == InitState::Complete,
    {
        proof {
            use_type_invariant(&*self);
        }
        if self.state == InitState::Incomplete {
            self.state = InitState::Running;
            let v = f();
            *self = Lazy { value: Some(v), state: InitState::Complete };
        }
        proof {
            use_type_invariant(&*self);
        }
        match &self.value {
            Some(x) => x,
            None => vstd::pervasive::unreached(),
        }
    }
}

} // verus!
