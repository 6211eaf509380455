use vstd::prelude::*;

use crate::lua_value::lua_value::{LuaValue, LUA_CCLOSURE, LUA_VFUNCTION, LUA_VLCF, LUA_VRCLOSURE, LUA_VUSERDATA};
use crate::lua_vm::call_info::call_status::{
    ccmt_count_of, get_ccmt_count, set_ccmt_count, with_ccmt_count, CIST_C,
};
use crate::lua_vm::{LUA_MASKCALL, LUA_MASKRET};

verus! {

/// What the interpreter loop does after a call instruction.
#[derive(Clone, Copy, PartialEq, Eq, Structural, Debug)]
pub enum FrameAction {
    /// A new frame was pushed: execute the callee.
    Call,
    /// The current frame was replaced: execute the tail callee.
    TailCall,
    /// A native function ran: continue the current frame.
    Continue,
}

/// The decision of a call instruction `R[A](R[A+1], ..., R[A+B-1])` about the value in the
/// function slot. `top` is the stack top to set first (for a fixed argument count), `nargs`
/// the number of arguments and `nresults` the results wanted (-1: all of them).
#[derive(Clone, Copy, PartialEq, Eq, Structural, Debug)]
pub enum CallStep {
    /// A Lua function: push its frame, OR-ing the `__call` status into the new frame.
    PushLua { top: Option<usize>, nargs: usize, nresults: i32 },
    /// A native function or closure: run it now and continue the current frame.
    CallNative { top: Option<usize>, nargs: usize, nresults: i32 },
    /// A userdata with its own call function: shift the arguments up by one, put the
    /// userdata first and its call function in the function slot, then decide again with
    /// argument count `b`.
    UserdataCall { nargs: usize, b: usize },
    /// A value with a `__call` metamethod: shift the arguments up by one, put the value first
    /// and the metamethod in the function slot, then decide again with argument count `b`
    /// and call status `status` (its `__call` count raised by one).
    CallMetamethod { nargs: usize, b: usize, status: u32 },
    /// The `__call` chain is too long (fifteen metamethods already).
    ChainTooLong,
    /// The value cannot be called.
    NotCallable,
}

/// The number of arguments of a call: with `b == 0` the values between the function slot and
/// the stack top, otherwise `b - 1`.
pub open spec fn call_nargs(b: usize, top: usize, func_idx: usize) -> usize {
    if b == 0 {
        if top > func_idx + 1 {
            (top - func_idx - 1) as usize
        } else {
            0
        }
    } else {
        (b - 1) as usize
    }
}

/// The number of results wanted: all of them (-1) for `c == 0`, otherwise `c - 1`.
pub open spec fn call_nresults(c: usize) -> i32 {
    if c == 0 {
        -1i32
    } else {
        (c - 1) as i32
    }
}

/// The stack top set before the call: `func_idx + b` for a fixed argument count.
pub open spec fn call_top(b: usize, func_idx: usize) -> Option<usize> {
    if b == 0 {
        None
    } else {
        Some((func_idx + b) as usize)
    }
}

/// The argument count after one more argument was put in front.
pub open spec fn shifted_b(b: usize) -> usize {
    if b == 0 {
        0
    } else {
        (b + 1) as usize
    }
}

/// After one argument is put in front of a call's arguments (a userdata or `__call` layer),
/// the call sees exactly one argument more: with a fixed count the count grows by one, and a
/// variable count (up to the stack top, now one slot higher) stays variable.
pub proof fn lemma_shifted_call_has_one_more_argument(b: usize, top: usize, func_idx: usize)
    requires
        b < usize::MAX,
        top < usize::MAX,
        func_idx < usize::MAX,
        top >= func_idx + 1,
    ensures
        call_nargs(shifted_b(b), (top + 1) as usize, func_idx) == call_nargs(b, top, func_idx) + 1,
        b == 0 <==> shifted_b(b) == 0,
{
}

/// Decide a call: `func` is the value in the function slot `func_idx`, `b` and `c` the
/// instruction's argument and result counts, `top` the current stack top and `status` the
/// `__call` status carried so far. `ud_call` tells whether a full userdata supplies its own
/// call function, `has_call_mm` whether the value has a `__call` metamethod.
pub fn call_step(
    func: &LuaValue,
    func_idx: usize,
    b: usize,
    c: usize,
    top: usize,
    status: u32,
    ud_call: bool,
    has_call_mm: bool,
) -> (r: CallStep)
    requires
        func_idx < usize::MAX,
        func_idx + b <= usize::MAX,
        b < usize::MAX,
    ensures
        func.tag() == LUA_VFUNCTION ==> r == (CallStep::PushLua {
            top: call_top(b, func_idx),
            nargs: call_nargs(b, top, func_idx),
            nresults: call_nresults(c),
        }),
        (func.tag() == LUA_VLCF || func.tag() == LUA_CCLOSURE || func.tag() == LUA_VRCLOSURE)
            ==> r == (CallStep::CallNative {
            top: call_top(b, func_idx),
            nargs: call_nargs(b, top, func_idx),
            nresults: call_nresults(c),
        }),
        func.tag() == LUA_VUSERDATA && ud_call ==> r == (CallStep::UserdataCall {
            nargs: call_nargs(b, top, func_idx),
            b: shifted_b(b),
        }),
        !(func.tag() == LUA_VFUNCTION || func.tag() == LUA_VLCF || func.tag() == LUA_CCLOSURE
            || func.tag() == LUA_VRCLOSURE || (func.tag() == LUA_VUSERDATA && ud_call)) ==> {
            &&& has_call_mm && ccmt_count_of(status) == 15 ==> r == CallStep::ChainTooLong
            &&& has_call_mm && ccmt_count_of(status) < 15 ==> r == (CallStep::CallMetamethod {
                nargs: call_nargs(b, top, func_idx),
                b: shifted_b(b),
                status: with_ccmt_count(status, (ccmt_count_of(status) + 1) as u8),
            })
            &&& !has_call_mm ==> r == CallStep::NotCallable
        },
{
    let nargs: usize = if b == 0 {
        if top > func_idx + 1 {
            top - func_idx - 1
        } else {
            0
        }
    } else {
        b - 1
    };
    let new_top: Option<usize> = if b == 0 {
        None
    } else {
        Some(func_idx + b)
    };
    let nresults: i32 = if c == 0 {
        -1
    } else {
        #[verifier::truncate]
        ((c - 1) as i32)
    };
    let new_b: usize = if b == 0 {
        0
    } else {
        b + 1
    };
    if func.is_lua_function() {
        CallStep::PushLua { top: new_top, nargs, nresults }
    } else if func.is_c_callable() {
        CallStep::CallNative { top: new_top, nargs, nresults }
    } else if func.ttisfulluserdata() && ud_call {
        CallStep::UserdataCall { nargs, b: new_b }
    } else if has_call_mm {
        let count = get_ccmt_count(status);
        if count == 15 {
            CallStep::ChainTooLong
        } else {
            CallStep::CallMetamethod { nargs, b: new_b, status: set_ccmt_count(status, count + 1) }
        }
    } else {
        CallStep::NotCallable
    }
}

impl CallStep {
    /// What the loop does once the step is carried out: a pushed Lua frame is executed, a
    /// native call continues the current frame; the other steps decide again or fail.
    pub fn frame_action(&self) -> (r: Option<FrameAction>)
        ensures
            r == (match *self {
                CallStep::PushLua { .. } => Some(FrameAction::Call),
                CallStep::CallNative { .. } => Some(FrameAction::Continue),
                _ => None,
            }),
    {
        match self {
            CallStep::PushLua { .. } => Some(FrameAction::Call),
            CallStep::CallNative { .. } => Some(FrameAction::Continue),
            _ => None,
        }
    }
}

/// Where the results of a native call are taken from: a native function that returns `n`
/// leaves its results just below the stack top `stack_top` (from `func_idx + 1` when fewer
/// values are there); of them the first `nresults` (all for -1) are copied down to the function
/// slot. Returns the first result's slot and the number of values copied.
pub fn native_call_results(func_idx: usize, stack_top: usize, n: usize, nresults: i32) -> (r: (usize, usize))
    requires
        func_idx < usize::MAX,
        nresults >= -1,
    ensures
        r.0 == (if stack_top >= n { stack_top - n } else { func_idx + 1 }),
        r.1 == (if nresults == -1 { n as int } else if n < nresults { n as int } else { nresults as int }),
{
    let first = if stack_top >= n {
        stack_top - n
    } else {
        func_idx + 1
    };
    let copy = if nresults == -1 {
        n
    } else if n < nresults as usize {
        n
    } else {
        nresults as usize
    };
    (first, copy)
}

/// The frame a Lua tail call sets up in place of the current one.
#[derive(Clone, Copy, PartialEq, Eq, Structural, Debug)]
pub struct TailFrame {
    /// Slot the callee and its arguments move down to.
    pub func_pos: usize,
    /// The new frame's base (first argument).
    pub base: usize,
    /// Slots `nil_from..nil_to` are missing parameters, filled with nil.
    pub nil_from: usize,
    pub nil_to: usize,
    /// Arguments beyond the fixed parameters.
    pub nextraargs: i32,
    /// The new frame's top.
    pub top: usize,
    /// The stack top: one past the arguments (or the padded parameters).
    pub stack_top: usize,
}

/// Lay out a Lua tail call: the current frame's base is `base` with its function `func_offset`
/// slots below it; the callee gets `nargs` arguments and has `numparams` fixed parameters and
/// a frame of `max_stack` slots.
pub fn tail_frame(base: usize, func_offset: usize, nargs: usize, numparams: usize, max_stack: usize) -> (r: TailFrame)
    requires
        func_offset <= base,
        base - func_offset + 1 + max_stack <= usize::MAX,
        base - func_offset + 1 + nargs <= usize::MAX,
        base - func_offset + 1 + numparams <= usize::MAX,
    ensures
        r.func_pos == base - func_offset,
        r.base == r.func_pos + 1,
        nargs < numparams ==> r.nil_from == r.base + nargs && r.nil_to == r.base + numparams,
        nargs >= numparams ==> r.nil_from == r.nil_to,
        r.nextraargs == (if nargs > numparams { (nargs - numparams) as i32 } else { 0 }),
        r.top == r.func_pos + 1 + max_stack,
        r.stack_top == r.base + (if nargs > numparams { nargs } else { numparams }),
{
    let func_pos = base - func_offset;
    let new_base = func_pos + 1;
    let mut nil_from: usize = 0;
    let mut nil_to: usize = 0;
    if nargs < numparams {
        nil_from = new_base + nargs;
        nil_to = new_base + numparams;
    }
    let actual: usize = if nargs > numparams {
        nargs
    } else {
        numparams
    };
    let nextraargs: i32 = if nargs > numparams {
        #[verifier::truncate]
        ((nargs - numparams) as i32)
    } else {
        0
    };
    TailFrame {
        func_pos,
        base: new_base,
        nil_from,
        nil_to,
        nextraargs,
        top: func_pos + 1 + max_stack,
        stack_top: new_base + actual,
    }
}

/// What the walk along a `__call` chain does with the value in the function slot, at chain
/// depth `depth`.
#[derive(Clone, Copy, PartialEq, Eq, Structural, Debug)]
pub enum ChainStep {
    /// A function: the walk ends.
    Callable,
    /// A userdata with its own call function: add a layer with that function.
    UserdataCall,
    /// A value with a `__call` metamethod: add a layer with the metamethod, one level deeper.
    Metamethod,
    /// Fifteen `__call` layers already: the chain is too long.
    TooLong,
    /// The value cannot be called.
    NotCallable,
}

/// Decide one step of the walk along a `__call` chain. `ud_call` tells whether a full
/// userdata supplies its own call function, `has_mm` whether the value has `__call`.
pub fn chain_step(func: &LuaValue, depth: u8, ud_call: bool, has_mm: bool) -> (r: ChainStep)
    ensures
        (func.tag() == LUA_VFUNCTION || func.tag() == LUA_VLCF || func.tag() == LUA_CCLOSURE
            || func.tag() == LUA_VRCLOSURE) ==> r == ChainStep::Callable,
        !(func.tag() == LUA_VFUNCTION || func.tag() == LUA_VLCF || func.tag() == LUA_CCLOSURE
            || func.tag() == LUA_VRCLOSURE) ==> r == (if func.tag() == LUA_VUSERDATA && ud_call {
            ChainStep::UserdataCall
        } else if has_mm {
            if depth == 15 {
                ChainStep::TooLong
            } else {
                ChainStep::Metamethod
            }
        } else {
            ChainStep::NotCallable
        }),
{
    if func.is_c_callable() || func.is_lua_function() {
        ChainStep::Callable
    } else if func.ttisfulluserdata() && ud_call {
        ChainStep::UserdataCall
    } else if has_mm {
        if depth == 15 {
            ChainStep::TooLong
        } else {
            ChainStep::Metamethod
        }
    } else {
        ChainStep::NotCallable
    }
}

/// The stack after one layer of a call chain over the function slot `f` with `n` arguments:
/// the arguments move up one slot, the old function becomes the first argument and `g` takes
/// the function slot.
pub open spec fn call_layer(s: Seq<LuaValue>, f: int, n: int, g: LuaValue) -> Seq<LuaValue> {
    Seq::new(
        s.len(),
        |k: int|
            if k == f {
                g
            } else if k == f + 1 {
                s[f]
            } else if f + 2 <= k <= f + 1 + n {
                s[k - 1]
            } else {
                s[k]
            },
    )
}

/// The stack after the layers `gs` (in order) were added over the function slot `f`, which
/// started with `n` arguments; each layer has one argument more.
pub open spec fn call_chain(s: Seq<LuaValue>, f: int, n: int, gs: Seq<LuaValue>) -> Seq<LuaValue>
    decreases gs.len(),
{
    if gs.len() == 0 {
        s
    } else {
        call_layer(call_chain(s, f, n, gs.drop_last()), f, n + gs.len() - 1, gs.last())
    }
}

/// Add a layer to a call: shift the `nargs` arguments after `func_idx` up by one, put the old
/// function first and `new_func` in the function slot. The new stack top, one past the
/// arguments, comes back; `Err` (and nothing changed) when the stack has no slot for the last
/// shifted argument.
pub fn push_call_layer(stack: &mut Vec<LuaValue>, func_idx: usize, nargs: usize, new_func: LuaValue) -> (r: Result<usize, ()>)
    ensures
        func_idx + nargs + 2 <= old(stack)@.len() ==> r == Ok::<usize, ()>((func_idx + nargs + 2) as usize)
            && final(stack)@ == call_layer(old(stack)@, func_idx as int, nargs as int, new_func),
        !(func_idx + nargs + 2 <= old(stack)@.len()) ==> r == Err::<usize, ()>(()) && final(stack)@ == old(stack)@,
{
    if func_idx >= stack.len() || nargs > stack.len() - func_idx || stack.len() - func_idx - nargs < 2 {
        return Err(());
    }
    let f = func_idx;
    let old_func = stack[f];
    let ghost s0 = stack@;
    let len = stack.len();
    let mut i: usize = nargs;
    while i > 0
        invariant
            i <= nargs,
            len == s0.len(),
            f + nargs + 2 <= s0.len(),
            stack@.len() == s0.len(),
            old_func == s0[f as int],
            forall|k: int| 0 <= k < stack@.len() ==> #[trigger] stack@[k] == (if f + 2 + i <= k <= f + 1 + nargs {
                s0[k - 1]
            } else {
                s0[k]
            }),
        decreases i,
    {
        let v = stack[f + i];
        stack.set(f + i + 1, v);
        i = i - 1;
    }
    stack.set(f + 1, old_func);
    stack.set(f, new_func);
    proof {
        assert(stack@ =~= call_layer(s0, f as int, nargs as int, new_func));
    }
    Ok(f + nargs + 2)
}

/// After `e` layers of a call chain, the slot `f` holds the last layer's function, the
/// original function sits at `f + e` and the original arguments follow it in order.
pub proof fn lemma_call_chain_layout(s: Seq<LuaValue>, f: int, n: int, gs: Seq<LuaValue>)
    requires
        0 <= f,
        0 <= n,
        f + n + gs.len() + 1 <= s.len(),
    ensures
        call_chain(s, f, n, gs).len() == s.len(),
        gs.len() > 0 ==> call_chain(s, f, n, gs)[f] == gs.last(),
        call_chain(s, f, n, gs)[f + gs.len()] == s[f],
        forall|i: int| 0 <= i < n ==> #[trigger] call_chain(s, f, n, gs)[f + gs.len() + 1 + i] == s[f + 1 + i],
    decreases gs.len(),
{
    if gs.len() > 0 {
        let e = gs.len() as int;
        lemma_call_chain_layout(s, f, n, gs.drop_last());
        let t = call_chain(s, f, n, gs.drop_last());
        assert(call_chain(s, f, n, gs) == call_layer(t, f, n + e - 1, gs.last()));
        assert forall|i: int| 0 <= i < n implies #[trigger] call_chain(s, f, n, gs)[f + e + 1 + i] == s[f + 1 + i] by {
            assert(t[f + (e - 1) + 1 + i] == s[f + 1 + i]);
        }
    }
}

/// Which hooks a native call fires.
#[derive(Clone, Copy, PartialEq, Eq, Structural, Debug)]
pub struct NativeHooks {
    /// The call hook, before the function runs.
    pub call: bool,
    /// The return hook, after it returned.
    pub ret: bool,
}

/// A native call fires the call (return) hook when the hook mask asks for calls (returns)
/// and hooks are allowed.
pub fn native_call_hooks(hook_mask: u8, allow_hook: bool) -> (r: NativeHooks)
    ensures
        r.call == (hook_mask & LUA_MASKCALL != 0 && allow_hook),
        r.ret == (hook_mask & LUA_MASKRET != 0 && allow_hook),
{
    NativeHooks {
        call: hook_mask & LUA_MASKCALL != 0 && allow_hook,
        ret: hook_mask & LUA_MASKRET != 0 && allow_hook,
    }
}

/// What the hooks of a native call are told: the number of arguments (the values from the
/// call base `call_base` to the stack top `top` when the function starts), and for the return
/// hook the 1-based position of the first of the `n` results (which start at `first_result`)
/// and their number.
pub fn native_hook_transfers(call_base: usize, top: usize, first_result: usize, n: usize) -> (r: (i32, i32, i32))
    requires
        call_base <= top,
        call_base <= first_result,
        first_result - call_base < usize::MAX,
    ensures
        r.0 == (top - call_base) as i32,
        r.1 == (first_result - call_base + 1) as i32,
        r.2 == n as i32,
{
    #[verifier::truncate]
    let narg = (top - call_base) as i32;
    #[verifier::truncate]
    let ftransfer = (first_result - call_base + 1) as i32;
    #[verifier::truncate]
    let ntransfer = n as i32;
    (narg, ftransfer, ntransfer)
}

/// After a native call returns to a Lua caller (its call status without `CIST_C`) whose saved
/// pc is `saved_pc`, the last executed instruction is the one before it (0 at the start);
/// a native caller keeps the old value (`None`).
pub fn caller_oldpc(caller_status: u32, saved_pc: u32) -> (r: Option<u32>)
    ensures
        caller_status & CIST_C == 0 ==> r == Some(if saved_pc > 0 { (saved_pc - 1) as u32 } else { 0u32 }),
        caller_status & CIST_C != 0 ==> r is None,
{
    if caller_status & CIST_C == 0 {
        Some(if saved_pc > 0 {
            saved_pc - 1
        } else {
            0
        })
    } else {
        None
    }
}

} // verus!
