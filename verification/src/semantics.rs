use vstd::prelude::*;

verus! {

/// How far a cell's initialization has got.
#[derive(PartialEq, Eq, Structural, Debug, Clone, Copy)]
pub enum InitState {
    /// The initializer has not been called.
    Incomplete,
    /// The initializer has been called and has not returned. A cell found in
    /// this state by a later `get` had an initializer that unwound: the cell
    /// is poisoned, and every later `get` would panic.
    Running,
    /// The initializer has returned and its value is stored.
    Complete,
}

/// What a call of `get` on a lazily initialized cell does, given the cell's
/// contents before the call, its contents after the call, and the value
/// handed back: the cell holds a value afterwards, that value is the one
/// handed back, and a cell that already held a value keeps it.
pub open spec fn get_post<T>(before: Option<T>, after: Option<T>, result: T) -> bool {
    &&& after == Some(result)
    &&& before matches Some(v) ==> result == v
}

/// Once a cell holds a value, `get` hands back exactly that value and
/// leaves the cell as it was, whatever initializer it is given.
pub proof fn law_get_on_initialized<T>(v: T, after: Option<T>, result: T)
    requires
        get_post(Some(v), after, result),
    ensures
        result == v,
        after == Some(v),
{
}

/// Two calls of `get` in a row hand back the same value, and the second
/// call changes nothing: the initializer takes effect at most once.
pub proof fn law_get_twice<T>(s0: Option<T>, s1: Option<T>, r1: T, s2: Option<T>, r2: T)
    requires
        get_post(s0, s1, r1),
        get_post(s1, s2, r2),
    ensures
        r2 == r1,
        s2 == s1,
{
}

} // verus!
