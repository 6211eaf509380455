use vstd::prelude::*;

verus! {

/// Payload type of table objects. Tables are reached through typed pointers; their storage is
/// managed outside this crate.
pub struct LuaTable {
    _opaque: (),
}

} // verus!
