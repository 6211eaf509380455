pub mod call_status;

use vstd::prelude::*;

use crate::lua_value::lua_value::{LuaValue, LUA_VNIL};
use crate::lua_vm::call_info::call_status::{CIST_C, CIST_LUA, CIST_TAIL};

verus! {

/// Information about one function call on the call stack.
#[derive(Clone, Copy)]
pub struct CallInfo {
    /// The function being called.
    pub func: LuaValue,
    /// Stack index of the frame's first register.
    pub base: usize,
    /// Distance from `base` back to the function's slot (1 unless a vararg function moved
    /// its fixed arguments).
    pub func_offset: u32,
    /// First free stack slot of the frame.
    pub top: u32,
    /// Next instruction to execute (Lua functions only).
    pub pc: u32,
    /// Number of results the caller expects; -1 for all of them.
    pub nresults: i32,
    /// Status flags (`CIST_*`).
    pub call_status: u32,
    /// Number of extra arguments of a vararg function.
    pub nextraargs: i32,
    /// Number of results saved while to-be-closed variables are closed.
    pub saved_nres: i32,
    /// Register that receives the result of a yielded get-metamethod; -1 when nothing is
    /// pending, -2 when a yielded set-metamethod is pending.
    pub pending_finish_get: i32,
}

impl CallInfo {
    /// A frame just created for a function at `base` with `nparams` fixed parameters.
    pub open spec fn fresh_frame(func: LuaValue, base: usize, nparams: usize, status: u32) -> CallInfo {
        CallInfo {
            func,
            base,
            func_offset: 1,
            top: (base + nparams) as u32,
            pc: 0,
            nresults: -1i32,
            call_status: status,
            nextraargs: 0,
            saved_nres: 0,
            pending_finish_get: -1i32,
        }
    }

    /// A new frame for a Lua function.
    pub fn new_lua(func: LuaValue, base: usize, nparams: usize) -> (r: Self)
        requires
            base + nparams <= usize::MAX,
        ensures
            r == Self::fresh_frame(func, base, nparams, CIST_LUA),
    {
        CallInfo {
            func,
            base,
            func_offset: 1,
            top: (base + nparams) as u32,
            pc: 0,
            nresults: -1,
            call_status: CIST_LUA,
            nextraargs: 0,
            saved_nres: 0,
            pending_finish_get: -1,
        }
    }

    /// A new frame for a C function.
    pub fn new_c(func: LuaValue, base: usize, nparams: usize) -> (r: Self)
        requires
            base + nparams <= usize::MAX,
        ensures
            r == Self::fresh_frame(func, base, nparams, CIST_C),
    {
        CallInfo {
            func,
            base,
            func_offset: 1,
            top: (base + nparams) as u32,
            pc: 0,
            nresults: -1,
            call_status: CIST_C,
            nextraargs: 0,
            saved_nres: 0,
            pending_finish_get: -1,
        }
    }

    /// The frame runs a Lua function.
    pub fn is_lua(&self) -> (r: bool)
        ensures
            r == (self.call_status & CIST_LUA != 0),
    {
        self.call_status & CIST_LUA != 0
    }

    /// The frame runs a C function.
    pub fn is_c(&self) -> (r: bool)
        ensures
            r == (self.call_status & CIST_C != 0),
    {
        self.call_status & CIST_C != 0
    }

    /// The frame is a tail call.
    pub fn is_tail(&self) -> (r: bool)
        ensures
            r == (self.call_status & CIST_TAIL != 0),
    {
        self.call_status & CIST_TAIL != 0
    }

    /// Mark the frame as a tail call; nothing else changes.
    pub fn set_tail(&mut self)
        ensures
            *final(self) == (CallInfo { call_status: old(self).call_status | CIST_TAIL, ..*old(self) }),
    {
        self.call_status = self.call_status | CIST_TAIL;
    }
}

impl Default for CallInfo {
    fn default() -> (r: Self)
        ensures
            r.func.tag() == LUA_VNIL,
            r.func.payload() == 0,
            r.base == 0,
            r.func_offset == 1,
            r.top == 0,
            r.pc == 0,
            r.nresults == -1,
            r.call_status == 0,
            r.nextraargs == 0,
            r.saved_nres == 0,
            r.pending_finish_get == -1,
    {
        CallInfo {
            func: LuaValue::nil(),
            base: 0,
            func_offset: 1,
            top: 0,
            pc: 0,
            nresults: -1,
            call_status: 0,
            nextraargs: 0,
            saved_nres: 0,
            pending_finish_get: -1,
        }
    }
}

/// Marking a frame as a tail call keeps what kind of function it runs.
pub proof fn lemma_set_tail_keeps_kind(status: u32)
    ensures
        ((status | CIST_TAIL) & CIST_LUA != 0) == (status & CIST_LUA != 0),
        ((status | CIST_TAIL) & CIST_C != 0) == (status & CIST_C != 0),
        (status | CIST_TAIL) & CIST_TAIL != 0,
{
    assert(((status | 4u32) & 1u32 != 0) == (status & 1u32 != 0)) by (bit_vector);
    assert(((status | 4u32) & 2u32 != 0) == (status & 2u32 != 0)) by (bit_vector);
    assert((status | 4u32) & 4u32 != 0) by (bit_vector);
}

} // verus!
