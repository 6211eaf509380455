use vstd::prelude::*;

use crate::lua_value::lua_value::{LuaValue, LUA_TSTRING, LUA_VFUNCTION, LUA_VTABLE, LUA_VUSERDATA};

verus! {

/// Outcome of a metatable `__index` lookup.
pub enum IndexResult {
    /// The value was found (nil when there is no metamethod): store it and continue.
    Found(LuaValue),
    /// A Lua metamethod frame was pushed: restart at the new frame.
    CallMm,
    /// `__index` is neither a Lua function nor a table that had the key: take the slow path.
    FallThrough,
}

/// Outcome of a binary-metamethod check on the first operand's metatable.
#[derive(Clone, Copy, PartialEq, Eq, Structural, Debug)]
pub enum MmBinResult {
    /// A Lua metamethod frame was pushed: restart at the new frame.
    CallMm,
    /// A native metamethod ran and its result was stored: continue.
    Handled,
    /// The first operand has no metamethod: take the slow path.
    FallThrough,
}

/// Outcome of a table `__len` check.
#[derive(Clone, Copy, PartialEq, Eq, Structural, Debug)]
pub enum LenResult {
    /// No `__len`: use the raw length of the table.
    RawLen,
    /// A Lua metamethod frame was pushed: restart at the new frame.
    CallMm,
    /// `__len` is a native function: take the generic path.
    FallThrough,
}

/// Decide a binary metamethod from the first operand's metatable: none (`has_meta` false)
/// or one whose absence cache says so (`no_tm`) falls through; a found metamethod `mm` is
/// called as a Lua frame when it is a Lua function and directly otherwise. The second result
/// tells whether to record in the cache that the metamethod is absent.
pub fn mmbin_meta_step(has_meta: bool, no_tm: bool, mm: Option<&LuaValue>) -> (r: (MmBinResult, bool))
    ensures
        !has_meta || no_tm ==> r == (MmBinResult::FallThrough, false),
        has_meta && !no_tm ==> r == (match mm {
            Some(f) => (if f.tag() == LUA_VFUNCTION {
                MmBinResult::CallMm
            } else {
                MmBinResult::Handled
            }, false),
            None => (MmBinResult::FallThrough, true),
        }),
{
    if !has_meta || no_tm {
        return (MmBinResult::FallThrough, false);
    }
    match mm {
        Some(f) => if f.is_lua_function() {
            (MmBinResult::CallMm, false)
        } else {
            (MmBinResult::Handled, false)
        },
        None => (MmBinResult::FallThrough, true),
    }
}

/// Decide a table's `__len` from its metatable: when the absence cache says there is none
/// (`no_tm`) or none is found the raw length is used, a Lua function metamethod gets a frame,
/// and a native one is left to the generic path. The second result tells whether to record
/// in the cache that `__len` is absent.
pub fn len_meta_step(no_tm: bool, mm: Option<&LuaValue>) -> (r: (LenResult, bool))
    ensures
        no_tm ==> r == (LenResult::RawLen, false),
        !no_tm ==> r == (match mm {
            Some(f) => (if f.tag() == LUA_VFUNCTION {
                LenResult::CallMm
            } else {
                LenResult::FallThrough
            }, false),
            None => (LenResult::RawLen, true),
        }),
{
    if no_tm {
        return (LenResult::RawLen, false);
    }
    match mm {
        Some(f) => if f.is_lua_function() {
            (LenResult::CallMm, false)
        } else {
            (LenResult::FallThrough, false)
        },
        None => (LenResult::RawLen, true),
    }
}

/// What the length operator does with its operand.
#[derive(Clone, Copy, PartialEq, Eq, Structural, Debug)]
pub enum LenStep {
    /// Store this length (of a string or binary).
    Length(i64),
    /// Store the table's raw length; `record_absent` asks to record in the metatable's cache
    /// that it has no `__len`.
    RawLen { record_absent: bool },
    /// Call the `__len` metamethod with the operand twice and store its result.
    CallMm,
    /// Store the length the userdata itself supplies.
    UserdataLen,
    /// The value has no length: raise a type error.
    TypeError,
}

/// Decide the length operator on `v`. `text_len` is the byte length of a string or binary;
/// for a table, `has_meta` tells whether it has a metatable, `no_tm` whether that
/// metatable's cache says `__len` is absent and `tm_found` whether `__len` is in it; for other
/// values `ud_len` tells whether a full userdata supplies its own length and `mm_found`
/// whether the value has a `__len` metamethod.
pub fn len_step(
    v: &LuaValue,
    text_len: usize,
    has_meta: bool,
    no_tm: bool,
    tm_found: bool,
    ud_len: bool,
    mm_found: bool,
) -> (r: LenStep)
    requires
        text_len <= i64::MAX,
    ensures
        v.tag() % 16 == LUA_TSTRING ==> r == LenStep::Length(text_len as i64),
        v.tag() == LUA_VTABLE ==> r == (if !has_meta || no_tm {
            LenStep::RawLen { record_absent: false }
        } else if tm_found {
            LenStep::CallMm
        } else {
            LenStep::RawLen { record_absent: true }
        }),
        v.tag() % 16 != LUA_TSTRING && v.tag() != LUA_VTABLE ==> r == (if v.tag() == LUA_VUSERDATA
            && ud_len {
            LenStep::UserdataLen
        } else if mm_found {
            LenStep::CallMm
        } else {
            LenStep::TypeError
        }),
{
    if v.ttisstring() {
        LenStep::Length(text_len as i64)
    } else if v.ttistable() {
        if !has_meta || no_tm {
            LenStep::RawLen { record_absent: false }
        } else if tm_found {
            LenStep::CallMm
        } else {
            LenStep::RawLen { record_absent: true }
        }
    } else if v.ttisfulluserdata() && ud_len {
        LenStep::UserdataLen
    } else if mm_found {
        LenStep::CallMm
    } else {
        LenStep::TypeError
    }
}

} // verus!
