use vstd::prelude::*;

verus! {

/// Payload type of thread objects (execution states). Threads are reached through typed
/// pointers; their state is managed outside this crate.
pub struct LuaState {
    _opaque: (),
}

} // verus!
