use vstd::prelude::*;

use crate::lua_vm::lua_limits::{LUAI_MAXCSTACK, LUAI_MAXSTACK, MAX_CALL_DEPTH};

verus! {

/// Resource limits of a virtual machine.
#[derive(Clone, Copy, PartialEq, Eq, Structural)]
pub struct SafeOption {
    pub max_stack_size: usize,
    /// Largest Lua call-stack depth (number of frames): a guard against runaway recursion.
    pub max_call_depth: usize,
    /// Largest depth of nested native calls.
    pub max_c_stack_depth: usize,
    /// Largest amount of memory in bytes.
    pub max_memory_limit: isize,
}

impl Default for SafeOption {
    fn default() -> (r: Self)
        ensures
            r.max_stack_size == LUAI_MAXSTACK,
            r.max_call_depth == MAX_CALL_DEPTH,
            r.max_c_stack_depth == LUAI_MAXCSTACK,
            r.max_memory_limit == isize::MAX,
    {
        SafeOption {
            max_stack_size: LUAI_MAXSTACK,
            max_call_depth: MAX_CALL_DEPTH,
            max_c_stack_depth: LUAI_MAXCSTACK,
            max_memory_limit: isize::MAX,
        }
    }
}

/// The limits a running state checks, with the configured depths kept aside: while an error
/// handler runs the limits may be raised, and the base values tell that extra zone apart.
#[derive(Clone, Copy, PartialEq, Eq, Structural)]
pub struct LuaSafeState {
    pub max_stack_size: usize,
    pub max_call_depth: usize,
    pub max_c_stack_depth: usize,
    /// The configured native-call depth, before any raise for an error handler.
    pub base_c_stack_depth: usize,
    /// The configured call depth, before any raise for an error handler.
    pub base_call_depth: usize,
    pub max_memory_limit: isize,
}

impl LuaSafeState {
    /// The state's limits for the given options: the base depths start at the configured ones.
    pub open spec fn of_option(option: SafeOption) -> LuaSafeState {
        LuaSafeState {
            max_stack_size: option.max_stack_size,
            max_call_depth: option.max_call_depth,
            max_c_stack_depth: option.max_c_stack_depth,
            base_c_stack_depth: option.max_c_stack_depth,
            base_call_depth: option.max_call_depth,
            max_memory_limit: option.max_memory_limit,
        }
    }
}

impl From<SafeOption> for LuaSafeState {
    fn from(option: SafeOption) -> (r: Self) {
        LuaSafeState {
            max_stack_size: option.max_stack_size,
            max_call_depth: option.max_call_depth,
            max_c_stack_depth: option.max_c_stack_depth,
            base_c_stack_depth: option.max_c_stack_depth,
            base_call_depth: option.max_call_depth,
            max_memory_limit: option.max_memory_limit,
        }
    }
}

impl vstd::std_specs::convert::FromSpecImpl<SafeOption> for LuaSafeState {
    open spec fn obeys_from_spec() -> bool {
        true
    }

    open spec fn from_spec(option: SafeOption) -> LuaSafeState {
        LuaSafeState::of_option(option)
    }
}

} // verus!
