use vstd::prelude::*;

verus! {

// ============ Call status flags ============
/// Lua function (has bytecode).
pub const CIST_LUA: u32 = 0x1;
/// C function.
pub const CIST_C: u32 = 0x2;
/// The call is a tail call.
pub const CIST_TAIL: u32 = 0x4;
/// The call is running a hook that may yield.
pub const CIST_HOOKYIELD: u32 = 0x8;
/// Yieldable protected call (a pcall body yielded).
pub const CIST_YPCALL: u32 = 0x10;
/// The call is fresh (started by the host, not by the interpreter loop).
pub const CIST_FRESH: u32 = 0x20;
/// The function is closing to-be-closed variables during its return.
pub const CIST_CLSRET: u32 = 0x40;
/// Error recovery status saved across a yield.
pub const CIST_RECST: u32 = 0x80;
/// A metamethod operation (get or set) must be finished after a yield resumes.
pub const CIST_PENDING_FINISH: u32 = 0x100;
/// The frame is an xpcall frame: its error handler sits just below the body.
pub const CIST_XPCALL: u32 = 0x2000;
/// Yieldable unprotected call (results are moved without a status flag).
pub const CIST_YCALL: u32 = 0x4000;
/// The frame was interrupted by a hook.
pub const CIST_HOOKED: u32 = 0x8000;

/// Bit offset of the `__call` metamethod count (bits 9-12).
pub const CIST_CCMT: u32 = 9;
/// Mask of the `__call` metamethod count: `0xF << CIST_CCMT`.
pub const MAX_CCMT: u32 = 0x1E00;

/// The `__call` count stored in a status word: bits 9-12.
pub open spec fn ccmt_count_of(call_status: u32) -> u8 {
    ((call_status / 512) % 16) as u8
}

/// A status word with its `__call` count replaced by the low four bits of `count`; all
/// other bits are kept.
pub open spec fn with_ccmt_count(call_status: u32, count: u8) -> u32 {
    (call_status & !MAX_CCMT) | (((count as u32) << CIST_CCMT) & MAX_CCMT)
}

/// Extract the `__call` count from a status word.
pub fn get_ccmt_count(call_status: u32) -> (r: u8)
    ensures
        r == ccmt_count_of(call_status),
        r < 16,
{
    assert(((call_status & 0x1E00u32) >> 9u32) == (call_status / 512) % 16) by (bit_vector);
    ((call_status & MAX_CCMT) >> CIST_CCMT) as u8
}

/// Store a `__call` count (its low four bits) in a status word.
pub fn set_ccmt_count(call_status: u32, count: u8) -> (r: u32)
    ensures
        r == with_ccmt_count(call_status, count),
        ccmt_count_of(r) == count % 16,
        r & !MAX_CCMT == call_status & !MAX_CCMT,
{
    let r = (call_status & !MAX_CCMT) | (((count as u32) << CIST_CCMT) & MAX_CCMT);
    assert(((r / 512) % 16) as u8 == count % 16) by (bit_vector)
        requires
            r == (call_status & !0x1E00u32) | (((count as u32) << 9u32) & 0x1E00u32),
    ;
    assert(r & !0x1E00u32 == call_status & !0x1E00u32) by (bit_vector)
        requires
            r == (call_status & !0x1E00u32) | (((count as u32) << 9u32) & 0x1E00u32),
    ;
    r
}

/// Storing the count a status word already holds gives the same word back.
pub proof fn lemma_set_get_ccmt_count(call_status: u32)
    ensures
        with_ccmt_count(call_status, ccmt_count_of(call_status)) == call_status,
{
    let c = ccmt_count_of(call_status);
    assert(c == ((call_status / 512) % 16) as u8);
    assert((call_status & !0x1E00u32) | ((((((call_status / 512) % 16) as u8) as u32) << 9u32)
        & 0x1E00u32) == call_status) by (bit_vector);
}

/// Of two stores of a count, the later one wins.
pub proof fn lemma_set_ccmt_count_twice(call_status: u32, first: u8, second: u8)
    ensures
        with_ccmt_count(with_ccmt_count(call_status, first), second) == with_ccmt_count(
            call_status,
            second,
        ),
{
    assert(((((call_status & !0x1E00u32) | (((first as u32) << 9u32) & 0x1E00u32)) & !0x1E00u32)
        | (((second as u32) << 9u32) & 0x1E00u32)) == ((call_status & !0x1E00u32) | (((
    second as u32) << 9u32) & 0x1E00u32))) by (bit_vector);
}

} // verus!
