use vstd::prelude::*;

verus! {

/// Largest size of a Lua stack (in slots).
pub const LUAI_MAXSTACK: usize = 1_000_000;
/// Largest depth of the Lua call stack (number of frames).
pub const MAX_CALL_DEPTH: usize = 1024;
/// Largest depth of nested native calls.
pub const LUAI_MAXCSTACK: usize = 200;
/// Largest number of register-held local variables of one function.
pub const MAXVARS: usize = 200;
/// Longest source name shown in messages (an id buffer of 60 bytes less its terminator).
pub const MAX_SRC_LEN: usize = 59;

} // verus!
