use vstd::prelude::*;

use crate::semantics::get_post;
use crate::semantics::InitState;

verus! {

/// A lazily initialized value stored in place, together with the state of
/// its initialization. Unlike the other cells it can be put back into its
/// uninitialized state.
pub struct Lazy<T: Sync> {
    value: Option<T>,
    state: InitState,
}

impl<T: Sync> View for Lazy<T> {
    type V = Option<T>;

    closed spec fn view(&self) -> Option<T> {
        self.value
    }
}

impl<T: Sync> Lazy<T> {
    /// A value is stored exactly when the initializer has returned.
    #[verifier::type_invariant]
    closed spec fn inv(self) -> bool {
        (self.state == InitState::Complete) == (self.value is Some)
    }

    /// How far the initialization has got.
    pub closed spec fn state(&self) -> InitState {
        self.state
    }

    /// An uninitialized cell.
    pub fn new() -> (l: Self)
        ensures
            l@ is None,
            l.state() == InitState::Incomplete,
    {
        Lazy { value: None, state: InitState::Incomplete }
    }

    /// Whether the initializer has returned and its value is stored.
    pub fn is_initialized(&self) -> (b: bool)
        ensures
            b == (self@ is Some),
            b == (self.state() == InitState::Complete),
    {
        proof {
            use_type_invariant(self);
        }
        self.state == InitState::Complete
    }

    /// Hands back the cell's value, evaluating `f` first, exactly once, if
    /// the cell is still empty. The cell is marked as running while `f`
    /// runs; a cell left running by an initializer that unwound is poisoned
    /// and not accepted.
    pub fn get<F>(&mut self, f: F) -> (r: &T)
        where F: FnOnce() -> T,
        requires
            old(self).state() != InitState::Running,
            old(self)@ is None ==> f.requires(()),
        ensures
            get_post(old(self)@, final(self)@, *r),
            old(self)@ is None ==> f.ensures((), *r),
            final(self).state() == InitState::Complete,
    {
        proof {
            use_type_invariant(&*self);
        }
        if self.state == InitState::Incomplete {
            self.state = InitState::Running;
            let v = f();
            *self = Lazy { value: Some(v), state: InitState::Complete };
        }
        proof {
            use_type_invariant(&*self);
        }
        match &self.value {
            Some(x) => x,
            None => vstd::pervasive::unreached(),
        }
    }

    /// The stored value of an initialized cell.
    pub fn stored(&self) -> (r: &T)
        requires
            self@ is Some,
        ensures
            self@ == Some(*r),
    {
        match &self.value {
            Some(x) => x,
            None => vstd::pervasive::unreached(),
        }
    }

    /// Drops the stored value and marks the initialization as not done, so
    /// that the next `get` evaluates its initializer again. Only an
    /// initialized cell may be reset.
    pub fn reset(&mut self)
        requires
            old(self)@ is Some,
        ensures
            final(self)@ is None,
            final(self).state() == InitState::Incomplete,
    {
        *self = Lazy { value: None, state: InitState::Incomplete };
    }
}

/// A set of lazily initialized values of one type, together with the list of
/// those that have been initialized, most recent last, so that all of them
/// can be put back into their uninitialized state at once.
pub struct Registry<T: Sync> {
    lazies: Vec<Lazy<T>>,
    inited: Vec<usize>,
}

impl<T: Sync> Registry<T> {
    /// The contents of each cell, by its id.
    pub closed spec fn values(&self) -> Seq<Option<T>> {
        self.lazies@.map_values(|l: Lazy<T>| l@)
    }

    /// How far each cell's initialization has got, by its id.
    pub closed spec fn states(&self) -> Seq<InitState> {
        self.lazies@.map_values(|l: Lazy<T>| l.state())
    }

    /// The ids of the initialized cells, in the order of their initialization.
    pub closed spec fn init_order(&self) -> Seq<usize> {
        self.inited@
    }

    /// The list of initialized cells names each cell whose initializer has
    /// returned exactly once, and no other cell: neither an uninitialized one
    /// nor one whose initializer unwound. A cell holds a value exactly when it
    /// is listed.
    pub open spec fn wf(&self) -> bool {
        &&& self.states().len() == self.values().len()
        &&& self.values().len() <= usize::MAX
        &&& forall|k: int|
            0 <= k < self.init_order().len() ==> self.init_order()[k] < self.values().len()
        &&& self.init_order().no_duplicates()
        &&& forall|i: int|
            0 <= i < self.values().len() ==> {
                &&& (#[trigger] self.states()[i] == InitState::Complete) == (self.values()[i] is Some)
                &&& (self.states()[i] == InitState::Complete) == self.init_order().contains(
                    i as usize,
                )
            }
    }

    /// An empty set of cells.
    pub fn new() -> (reg: Self)
        ensures
            reg.wf(),
            reg.values() == Seq::<Option<T>>::empty(),
            reg.init_order() == Seq::<usize>::empty(),
    {
        let reg = Registry { lazies: Vec::new(), inited: Vec::new() };
        assert(reg.values() =~= Seq::<Option<T>>::empty());
        assert(reg.states() =~= Seq::<InitState>::empty());
        reg
    }

    /// Adds an uninitialized cell and hands back its id.
    pub fn declare(&mut self) -> (id: usize)
        requires
            old(self).wf(),
            old(self).values().len() < usize::MAX,
        ensures
            final(self).wf(),
            id == old(self).values().len(),
            final(self).values() == old(self).values().push(None),
            final(self).states() == old(self).states().push(InitState::Incomplete),
            final(self).init_order() == old(self).init_order(),
    {
        let id = self.lazies.len();
        self.lazies.push(Lazy::new());
        assert(self.values() =~= old(self).values().push(None));
        assert(self.states() =~= old(self).states().push(InitState::Incomplete));
        proof {
            assert forall|i: int| 0 <= i < self.values().len() implies {
                &&& (#[trigger] self.states()[i] == InitState::Complete) == (self.values()[i] is Some)
                &&& (self.states()[i] == InitState::Complete) == self.init_order().contains(
                    i as usize,
                )
            } by {
                if i < id {
                    assert(old(self).states()[i] == self.states()[i]);
                } else {
                    assert(i as usize == id);
                    if self.init_order().contains(i as usize) {
                        let k = choose|k: int| 0 <= k < self.init_order().len() && self.init_order()[k] == i as usize;
                        assert(old(self).init_order()[k] < old(self).values().len());
                    }
                }
            }
        }
        id
    }

    /// Hands back the value of cell `id`, evaluating `f` first, exactly once,
    /// if the cell is still empty; a cell initialized here joins the end of
    /// the list of initialized cells. A cell whose initializer unwound is
    /// poisoned and not accepted.
    pub fn get<F>(&mut self, id: usize, f: F) -> (r: &T)
        where F: FnOnce() -> T,
        requires
            old(self).wf(),
            id < old(self).values().len(),
            old(self).states()[id as int] != InitState::Running,
            old(self).values()[id as int] is None ==> f.requires(()),
        ensures
            final(self).wf(),
            final(self).values().len() == old(self).values().len(),
            get_post(old(self).values()[id as int], final(self).values()[id as int], *r),
            old(self).values()[id as int] is None ==> f.ensures((), *r),
            final(self).states() == old(self).states().update(id as int, InitState::Complete),
            forall|j: int|
                0 <= j < old(self).values().len() && j != id ==> final(self).values()[j]
                    == old(self).values()[j],
            final(self).init_order() == (if old(self).values()[id as int] is None {
                old(self).init_order().push(id)
            } else {
                old(self).init_order()
            }),
    {
        let newly = !self.lazies[id].is_initialized();
        let _ = self.lazies[id].get(f);
        if newly {
            self.inited.push(id);
        }
        proof {
            assert(self.values() =~= old(self).values().update(id as int, self.lazies@[id as int]@));
            assert(self.states() =~= old(self).states().update(id as int, InitState::Complete));
            if newly {
                assert(!old(self).init_order().contains(id));
                lemma_push_fresh(old(self).init_order(), id);
            }
            assert forall|i: int| 0 <= i < self.values().len() implies {
                &&& (#[trigger] self.states()[i] == InitState::Complete) == (self.values()[i] is Some)
                &&& (self.states()[i] == InitState::Complete) == self.init_order().contains(
                    i as usize,
                )
            } by {
                assert(i as usize as int == i);
                assert(old(self).states()[i] == InitState::Complete <==> old(
                    self,
                ).init_order().contains(i as usize));
            }
        }
        self.lazies[id].stored()
    }
}

/// Appending an id that a list without duplicates does not hold keeps it
/// without duplicates and adds exactly that id.
proof fn lemma_push_fresh(s: Seq<usize>, x: usize)
    requires
        s.no_duplicates(),
        !s.contains(x),
    ensures
        s.push(x).no_duplicates(),
        forall|y: usize| #[trigger] s.push(x).contains(y) == (s.contains(y) || y == x),
{
    let t = s.push(x);
    assert forall|a: int, b: int| 0 <= a < t.len() && 0 <= b < t.len() && a != b implies t[a] != t[b] by {
        if a == s.len() {
            assert(t[b] == s[b]);
        } else if b == s.len() {
            assert(t[a] == s[a]);
        }
    }
    assert forall|y: usize| #[trigger] t.contains(y) == (s.contains(y) || y == x) by {
        if s.contains(y) {
            let k = choose|k: int| 0 <= k < s.len() && s[k] == y;
            assert(t[k] == y);
        }
        if y == x {
            assert(t[s.len() as int] == y);
        }
        if t.contains(y) {
            let k = choose|k: int| 0 <= k < t.len() && t[k] == y;
            if k < s.len() {
                assert(s[k] == y);
            }
        }
    }
}

/// Dropping the last id of a list without duplicates removes exactly that id.
proof fn lemma_drop_last(s: Seq<usize>)
    requires
        s.no_duplicates(),
        s.len() > 0,
    ensures
        s.drop_last().no_duplicates(),
        forall|y: usize| #[trigger] s.drop_last().contains(y) == (s.contains(y) && y != s.last()),
{
    let t = s.drop_last();
    assert forall|a: int, b: int| 0 <= a < t.len() && 0 <= b < t.len() && a != b implies t[a] != t[b] by {
        assert(t[a] == s[a] && t[b] == s[b]);
    }
    assert forall|y: usize| #[trigger] t.contains(y) == (s.contains(y) && y != s.last()) by {
        if t.contains(y) {
            let k = choose|k: int| 0 <= k < t.len() && t[k] == y;
            assert(s[k] == y);
            assert(s[s.len() - 1] == s.last());
        }
        if s.contains(y) && y != s.last() {
            let k = choose|k: int| 0 <= k < s.len() && s[k] == y;
            assert(k != s.len() - 1);
            assert(t[k] == y);
        }
    }
}

/// In every well-formed registry, which `new` makes and `declare`, `get` and
/// `reset` keep, the list of initialized cells names each cell that holds a
/// value exactly once and names no other cell; in particular a cell whose
/// initializer unwound is never listed.
pub proof fn law_listed_exactly_when_initialized<T: Sync>(reg: Registry<T>, i: int)
    requires
        reg.wf(),
        0 <= i < reg.values().len(),
    ensures
        reg.init_order().contains(i as usize) == (reg.values()[i] is Some),
        reg.states()[i] == InitState::Running ==> !reg.init_order().contains(i as usize),
        reg.init_order().no_duplicates(),
        forall|k: int| 0 <= k < reg.init_order().len() ==> reg.init_order()[k] < reg.values().len(),
{
    assert(reg.states()[i] == InitState::Complete <==> reg.init_order().contains(i as usize));
}

/// What `reset` does to the contents of a registry's cells: it keeps their
/// number and leaves every one of them empty.
pub open spec fn reset_post<T>(before: Seq<Option<T>>, after: Seq<Option<T>>) -> bool {
    &&& after.len() == before.len()
    &&& forall|i: int| 0 <= i < after.len() ==> after[i] is None
}

/// After a reset, the next `get` of any cell evaluates the initializer it is
/// given and stores that value.
pub proof fn law_reset_then_get<T, F: FnOnce() -> T>(
    before: Seq<Option<T>>,
    after_reset: Seq<Option<T>>,
    id: int,
    f: F,
    after_get: Seq<Option<T>>,
    result: T,
)
    requires
        reset_post(before, after_reset),
        0 <= id < before.len(),
        get_post(after_reset[id], after_get[id], result),
        after_reset[id] is None ==> f.ensures((), result),
    ensures
        f.ensures((), result),
        after_get[id] == Some(result),
{
}

/// Resetting twice in a row leaves the cells as resetting once does.
pub proof fn law_reset_idempotent<T>(s0: Seq<Option<T>>, s1: Seq<Option<T>>, s2: Seq<Option<T>>)
    requires
        reset_post(s0, s1),
        reset_post(s1, s2),
    ensures
        s2 == s1,
{
    assert(s2 =~= s1);
}

/// Puts every initialized cell of `registry` back into its uninitialized
/// state, from the most recently initialized to the first, and empties the
/// list of initialized cells. A cell whose initializer unwound was never
/// listed, and stays poisoned.
pub fn reset<T: Sync>(registry: &mut Registry<T>)
    requires
        old(registry).wf(),
    ensures
        final(registry).wf(),
        reset_post(old(registry).values(), final(registry).values()),
        final(registry).states().len() == old(registry).states().len(),
        forall|i: int|
            0 <= i < final(registry).states().len() ==> #[trigger] final(registry).states()[i] == (
            if old(registry).states()[i] == InitState::Running {
                InitState::Running
            } else {
                InitState::Incomplete
            }),
        final(registry).init_order() == Seq::<usize>::empty(),
{
    while registry.inited.len() > 0
        invariant
            registry.wf(),
            registry.values().len() == old(registry).values().len(),
            forall|i: int|
                0 <= i < registry.states().len() ==> (#[trigger] registry.states()[i]
                    == InitState::Running) == (old(registry).states()[i] == InitState::Running),
        decreases registry.inited.len(),
    {
        let ghost before = *registry;
        let id = registry.inited.pop().unwrap();
        proof {
            assert(before.init_order()[before.init_order().len() - 1] == id);
            assert(before.init_order().contains(id));
            assert(before.states()[id as int] == InitState::Complete);
        }
        registry.lazies[id].reset();
        proof {
            assert(registry.init_order() == before.init_order().drop_last());
            lemma_drop_last(before.init_order());
            assert(registry.values() =~= before.values().update(id as int, None));
            assert(registry.states() =~= before.states().update(id as int, InitState::Incomplete));
            assert forall|i: int| 0 <= i < registry.values().len() implies {
                &&& (#[trigger] registry.states()[i] == InitState::Complete) == (registry.values()[i] is Some)
                &&& (registry.states()[i] == InitState::Complete) == registry.init_order().contains(
                    i as usize,
                )
            } by {
                assert(i as usize as int == i);
                assert(before.states()[i] == InitState::Complete <==> before.init_order().contains(i as usize));
            }
            assert forall|i: int| 0 <= i < registry.states().len() implies (#[trigger] registry.states()[i]
                    == InitState::Running) == (old(registry).states()[i] == InitState::Running) by {
                assert(before.states()[i] == InitState::Running <==> old(registry).states()[i] == InitState::Running);
            }
        }
    }
    proof {
        assert forall|i: int| 0 <= i < registry.values().len() implies registry.values()[i] is None by {
            assert(i as usize as int == i);
            assert(registry.states()[i] == InitState::Complete <==> registry.init_order().contains(i as usize));
        }
        assert forall|i: int|
            0 <= i < registry.states().len() implies #[trigger] registry.states()[i] == (
            if old(registry).states()[i] == InitState::Running {
                InitState::Running
            } else {
                InitState::Incomplete
            }) by {
            assert(i as usize as int == i);
            assert(registry.states()[i] == InitState::Complete <==> registry.init_order().contains(i as usize));
        }
    }
}

} // verus!
