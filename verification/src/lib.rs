//! Lazily initialized values: a cell stays empty until the first `get`, which
//! evaluates the initializer it is given and stores the result; every later
//! `get` hands back the stored value without evaluating anything.
//!
//! - `lazy`: the cell as a plain optional value.
//! - `heap_lazy`: the value is kept in a heap allocation made on first use.
//! - `inline_lazy`: the value is kept in place next to the state of its initialization; cells gathered
//!   in a `Registry` can all be put back into their uninitialized state.
//! - `stable_core_lazy`: the value is guarded by a status word that moves
//!   from `UNINIT` through `INITING` to `INITED`.
//! - `semantics`: how far an initialization has got, what `get` means,
//!   shared by all of them, and its laws.

pub mod semantics;
pub mod lazy;
pub mod heap_lazy;
pub mod inline_lazy;
pub mod stable_core_lazy;
