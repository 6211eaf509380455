use vstd::prelude::*;

use vstd::arithmetic::power2::pow2;

use crate::lua_value::lua_value::{
    f64_bits_is_nan, f64_is_nan, f64_lt_int, f64_parts, f64_scale, f64_scaled_magnitude,
    f64_to_i64, int_lt_f64, FloatParts, LuaValue, LUA_VFALSE, LUA_VNIL, LUA_VNUMFLT,
    LUA_VNUMINT, LUA_VTRUE,
};

use crate::lua_value::lua_value::LUA_TNIL;
use crate::lua_vm::call_info::call_status::{
    CIST_C, CIST_PENDING_FINISH, CIST_RECST, CIST_XPCALL, CIST_YCALL, CIST_YPCALL,
};

verus! {

/// The value is an integer.
pub fn ttisinteger(v: &LuaValue) -> (r: bool)
    ensures
        r == (v.tag() == LUA_VNUMINT),
{
    v.ttisinteger()
}

/// The value is a float.
pub fn ttisfloat(v: &LuaValue) -> (r: bool)
    ensures
        r == (v.tag() == LUA_VNUMFLT),
{
    v.ttisfloat()
}

/// The value has the string base type (short and long strings, binaries).
pub fn ttisstring(v: &LuaValue) -> (r: bool)
    ensures
        r == (v.tag() % 16 == crate::lua_value::lua_value::LUA_TSTRING),
{
    v.is_string()
}

/// The integer of an integer value.
pub fn ivalue(v: &LuaValue) -> (r: i64)
    requires
        v.tag() == LUA_VNUMINT,
    ensures
        r == v.payload() as i64,
{
    v.ivalue()
}

/// Overwrite a value with the integer `i`.
pub fn setivalue(v: &mut LuaValue, i: i64)
    ensures
        final(v).tag() == LUA_VNUMINT,
        final(v).payload() == i as u64,
{
    *v = LuaValue::integer(i);
}

/// Overwrite a value with false.
pub fn setbfvalue(v: &mut LuaValue)
    ensures
        final(v).tag() == LUA_VFALSE,
        final(v).payload() == 0,
{
    *v = LuaValue::boolean(false);
}

/// Overwrite a value with true.
pub fn setbtvalue(v: &mut LuaValue)
    ensures
        final(v).tag() == LUA_VTRUE,
        final(v).payload() == 0,
{
    *v = LuaValue::boolean(true);
}

/// Overwrite a value with nil.
pub fn setnilvalue(v: &mut LuaValue)
    ensures
        final(v).tag() == LUA_VNIL,
        final(v).payload() == 0,
{
    *v = LuaValue::nil();
}

/// The integer a number stands for, without string coercion: an integer as it is, a float
/// when it stands exactly for an integer in the range of `i64`.
pub open spec fn number_to_integer(v: LuaValue) -> Option<i64> {
    if v.tag() == LUA_VNUMINT {
        Some(v.payload() as i64)
    } else if v.tag() == LUA_VNUMFLT {
        f64_to_i64(v.payload())
    } else {
        None
    }
}

/// Convert a number to an integer (no string coercion): on success the integer is stored
/// in `out` and true returned; otherwise `out` is left alone and false returned.
pub fn tointegerns(v: &LuaValue, out: &mut i64) -> (r: bool)
    ensures
        r == (number_to_integer(*v) is Some),
        r ==> *final(out) == number_to_integer(*v)->0,
        !r ==> *final(out) == *old(out),
{
    match v.as_integer() {
        Some(i) => {
            *out = i;
            true
        },
        None => false,
    }
}

/// Convert a number constant to an integer, as `tointegerns` does.
pub fn tointeger(v: &LuaValue, out: &mut i64) -> (r: bool)
    ensures
        r == (number_to_integer(*v) is Some),
        r ==> *final(out) == number_to_integer(*v)->0,
        !r ==> *final(out) == *old(out),
{
    tointegerns(v, out)
}

/// The logical shift of a 64-bit pattern: left by `y`, or right by `-y` when `y` is negative,
/// with 0 once the distance reaches 64.
pub open spec fn shiftl_bits(u: u64, y: int) -> u64 {
    if y <= -64 || y >= 64 {
        0
    } else if y < 0 {
        u >> ((-y) as u64)
    } else {
        u << (y as u64)
    }
}

/// Floor division (rounding toward minus infinity).
pub open spec fn floor_div(a: int, b: int) -> int
    recommends
        b != 0,
{
    if b > 0 {
        a / b
    } else {
        (-a) / (-b)
    }
}

/// The remainder of floor division: it has the sign of the divisor.
pub open spec fn floor_mod(a: int, b: int) -> int
    recommends
        b != 0,
{
    a - b * floor_div(a, b)
}

/// Shift `x` left by `y` positions; a negative `y` shifts right (logically) by `-y`.
pub fn lua_shiftl(x: i64, y: i64) -> (r: i64)
    ensures
        r as u64 == shiftl_bits(x as u64, y as int),
{
    if y < 0 {
        if y <= -64 {
            0
        } else {
            let n: u32 = (-y) as u32;
            let u: u64 = x as u64;
            let v: u64 = u >> n;
            assert(v == u >> ((-y) as u64)) by (bit_vector)
                requires
                    v == u >> n,
                    n == (-y) as u32,
                    -64 < y < 0,
            ;
            assert(v as i64 as u64 == v) by (bit_vector);
            v as i64
        }
    } else {
        if y >= 64 {
            0
        } else {
            let n: u32 = y as u32;
            let u: u64 = x as u64;
            let v: u64 = u << n;
            assert(v == u << (y as u64)) by (bit_vector)
                requires
                    v == u << n,
                    n == y as u32,
                    0 <= y < 64,
            ;
            assert(v as i64 as u64 == v) by (bit_vector);
            v as i64
        }
    }
}

/// Shift `x` right (logically) by `y` positions: a shift left by `-y`.
pub fn lua_shiftr(x: i64, y: i64) -> (r: i64)
    ensures
        r as u64 == shiftl_bits(x as u64, -y),
{
    let ny = 0i64.wrapping_sub(y);
    assert(y != i64::MIN ==> ny == -y);
    lua_shiftl(x, ny)
}

/// The integer-division result: floor division, wrapped to 64 bits (only `i64::MIN // -1`
/// wraps, giving `i64::MIN`).
pub open spec fn idiv_spec(a: i64, b: i64) -> i64
    recommends
        b != 0,
{
    if b == -1 && a == i64::MIN {
        i64::MIN
    } else {
        floor_div(a as int, b as int) as i64
    }
}

/// Euclidean division of a negated positive number by a positive divisor.
proof fn lemma_div_of_negation(n: int, d: int)
    requires
        n > 0,
        d > 0,
    ensures
        (-n) / d == (if n % d == 0 { -(n / d) } else { -(n / d) - 1 }),
        (-n) % d == (if n % d == 0 { 0 } else { d - n % d }),
        n / d >= 0,
        0 <= n % d < d,
        n % d != 0 ==> n / d <= n / 2,
{
    let k = n / d;
    let r = n % d;
    vstd::arithmetic::div_mod::lemma_fundamental_div_mod(n, d);
    assert(0 <= r < d);
    assert(k >= 0) by {
        vstd::arithmetic::div_mod::lemma_div_pos_is_pos(n, d);
    }
    if r == 0 {
        assert(-n == (-k) * d + 0) by (nonlinear_arith)
            requires
                n == d * k + r,
                r == 0,
        ;
        vstd::arithmetic::div_mod::lemma_fundamental_div_mod_converse(-n, d, -k, 0);
    } else {
        assert(-n == (-k - 1) * d + (d - r)) by (nonlinear_arith)
            requires
                n == d * k + r,
        ;
        vstd::arithmetic::div_mod::lemma_fundamental_div_mod_converse(-n, d, -k - 1, d - r);
        assert(k <= n / 2) by (nonlinear_arith)
            requires
                n == d * k + r,
                0 < r < d,
                k >= 0,
        {
            assert(d >= 2);
            assert(n >= 2 * k);
        }
    }
}

/// Euclidean division by a negative divisor, in terms of division by its absolute value.
proof fn lemma_div_neg_divisor(n: int, d: int)
    requires
        d < 0,
    ensures
        n / d == -(n / (-d)),
        n % d == n % (-d),
{
    let q1 = n / d;
    let r1 = n % d;
    let q2 = n / (-d);
    let r2 = n % (-d);
    vstd::arithmetic::div_mod::lemma_fundamental_div_mod(n, d);
    vstd::arithmetic::div_mod::lemma_fundamental_div_mod(n, -d);
    assert(q1 == -q2) by (nonlinear_arith)
        requires
            d < 0,
            n == d * q1 + r1,
            n == (-d) * q2 + r2,
            0 <= r1 < -d,
            0 <= r2 < -d,
    {
        assert(d * (q1 + q2) == r1 - r2);
    }
    assert(r1 == r2) by (nonlinear_arith)
        requires
            n == d * q1 + r1,
            n == (-d) * q2 + r2,
            q1 == -q2,
    ;
}

/// The sign test used by the division routines: the xor of two integers is negative
/// exactly when their signs differ.
proof fn lemma_xor_sign(a: i64, b: i64)
    ensures
        ((a ^ b) < 0) == ((a < 0) != (b < 0)),
{
    assert(((a ^ b) < 0) == ((a < 0) != (b < 0))) by (bit_vector);
}

/// Floor division of integers (`a // b`).
pub fn lua_idiv(a: i64, b: i64) -> (r: i64)
    requires
        b != 0,
    ensures
        r == idiv_spec(a, b),
        !(b == -1 && a == i64::MIN) ==> r == floor_div(a as int, b as int),
{
    if b == -1 {
        let r = 0i64.wrapping_sub(a);
        assert(a != i64::MIN ==> r == -a);
        assert(floor_div(a as int, -1) == -a) by {
            assert((-a) / 1 == -a);
        }
        return r;
    }
    let q = a / b;
    let m = a % b;
    let ghost ai = a as int;
    let ghost bi = b as int;
    proof {
        lemma_xor_sign(a, b);
        if b < 0 {
            lemma_div_neg_divisor(ai, bi);
            lemma_div_neg_divisor(-ai, bi);
        }
        if a == 0 {
            if b > 0 {
                vstd::arithmetic::div_mod::lemma_small_mod(0, bi as nat);
            } else {
                vstd::arithmetic::div_mod::lemma_small_mod(0, (-bi) as nat);
            }
        }
    }
    if (a ^ b) < 0 && m != 0 {
        proof {
            if a < 0 {
                assert(b > 0);
                lemma_div_of_negation(-ai, bi);
                assert(q == -((-ai) / bi));
                assert(m == -((-ai) % bi));
                assert(floor_div(ai, bi) == q - 1);
            } else {
                assert(b < 0 && a > 0);
                lemma_div_neg_divisor(ai, bi);
                lemma_div_of_negation(ai, -bi);
                assert(q == -(ai / (-bi)));
                assert(m == ai % (-bi));
                assert(floor_div(ai, bi) == (-ai) / (-bi));
                assert(floor_div(ai, bi) == q - 1);
            }
        }
        q.wrapping_sub(1)
    } else {
        proof {
            if a >= 0 && b > 0 {
                assert(q == ai / bi);
            } else if a < 0 && b < 0 {
                vstd::arithmetic::div_mod::lemma_div_decreases(-ai, -bi);
                vstd::arithmetic::div_mod::lemma_div_pos_is_pos(-ai, -bi);
                assert(q == (-ai) / (-bi));
            } else if a < 0 {
                lemma_div_of_negation(-ai, bi);
                assert(m == -((-ai) % bi));
                assert(q == -((-ai) / bi));
            } else if a > 0 {
                lemma_div_neg_divisor(ai, bi);
                lemma_div_of_negation(ai, -bi);
                assert(m == ai % (-bi));
                assert(q == -(ai / (-bi)));
            } else {
                assert(ai == 0);
                assert(q == 0int / (-bi)) by {
                    assert(q == -(ai / (-bi)));
                }
                assert(floor_div(0, bi) == 0);
            }
        }
        q
    }
}

/// Floor modulo of integers (`a % b`): the result has the sign of `b`.
pub fn lua_imod(a: i64, b: i64) -> (r: i64)
    requires
        b != 0,
    ensures
        r == floor_mod(a as int, b as int),
{
    if b == -1 {
        assert(floor_mod(a as int, -1) == 0) by {
            assert((-(a as int)) / 1 == -a);
        }
        return 0;
    }
    let m = a % b;
    proof {
        lemma_xor_sign(m, b);
        let ai = a as int;
        let bi = b as int;
        if b < 0 {
            lemma_div_neg_divisor(ai, bi);
            lemma_div_neg_divisor(-ai, bi);
        }
        if a == 0 {
            if b > 0 {
                vstd::arithmetic::div_mod::lemma_small_mod(0, bi as nat);
            } else {
                vstd::arithmetic::div_mod::lemma_small_mod(0, (-bi) as nat);
            }
        }
        if a >= 0 && b > 0 {
            vstd::arithmetic::div_mod::lemma_fundamental_div_mod(ai, bi);
        } else if a < 0 && b > 0 {
            lemma_div_of_negation(-ai, bi);
            vstd::arithmetic::div_mod::lemma_fundamental_div_mod(ai, bi);
            vstd::arithmetic::div_mod::lemma_fundamental_div_mod(-ai, bi);
        } else if a < 0 && b < 0 {
            vstd::arithmetic::div_mod::lemma_fundamental_div_mod(-ai, -bi);
            assert(floor_mod(ai, bi) == ai - bi * ((-ai) / (-bi)));
            assert(bi * ((-ai) / (-bi)) == -((-bi) * ((-ai) / (-bi)))) by (nonlinear_arith);
        } else {
            if a > 0 {
                lemma_div_neg_divisor(ai, bi);
                lemma_div_of_negation(ai, -bi);
                vstd::arithmetic::div_mod::lemma_fundamental_div_mod(ai, -bi);
                vstd::arithmetic::div_mod::lemma_fundamental_div_mod(-ai, -bi);
                assert(bi * ((-ai) / (-bi)) == -((-bi) * ((-ai) / (-bi)))) by (nonlinear_arith);
            } else {
                assert(a == 0 && m == 0);
                assert(floor_div(0, bi) == 0);
            }
        }
    }
    if m != 0 && (m ^ b) < 0 {
        m.wrapping_add(b)
    } else {
        m
    }
}

} // verus!

verus! {

/// `i <= f` for an integer and a double, exactly: false for NaN.
pub open spec fn int_le_f64(i: int, bits: u64) -> bool {
    !f64_is_nan(bits) && !f64_lt_int(bits, i)
}

/// `f <= i` for a double and an integer, exactly: false for NaN.
pub open spec fn f64_le_int(bits: u64, i: int) -> bool {
    !f64_is_nan(bits) && !int_lt_f64(i, bits)
}

/// Comparing an integer with a scaled number `(d * w + r) / d`, where `0 <= r < d`.
proof fn lemma_scaled_compare(i: int, w: int, r: int, d: int)
    requires
        d > 0,
        0 <= r < d,
    ensures
        (i * d < d * w + r) == (i < w || (i == w && r > 0)),
        (i * d < -(d * w + r)) == (i < -w),
        (d * w + r < i * d) == (w < i),
        (-(d * w + r) < i * d) == (i > -w || (i == -w && r > 0)),
{
    if i < w {
        assert(i * d + d <= w * d) by (nonlinear_arith)
            requires
                i < w,
                d > 0,
        ;
    } else if i > w {
        assert(w * d + d <= i * d) by (nonlinear_arith)
            requires
                i > w,
                d > 0,
        ;
    }
    if i < -w {
        assert(i * d + d <= -w * d) by (nonlinear_arith)
            requires
                i < -w,
                d > 0,
        ;
    } else if i > -w {
        assert(-w * d + d <= i * d) by (nonlinear_arith)
            requires
                i > -w,
                d > 0,
        ;
    }
    assert(d * w == w * d) by (nonlinear_arith);
    assert(-w * d == -(w * d)) by (nonlinear_arith);
    if i == w {
        assert(i * d == w * d);
    }
    if i == -w {
        assert(i * d == -w * d) by (nonlinear_arith)
            requires
                i == -w,
        ;
    }
}

/// Is the integer `i` less than the double `f` (given by its bit pattern)? Exact, with no
/// rounding of either side; false when `f` is NaN.
pub fn int_lt_float(i: i64, f: u64) -> (r: bool)
    ensures
        r == int_lt_f64(i as int, f),
{
    let p = f64_parts(f);
    let ghost m = f64_scaled_magnitude(f);
    let ghost d = pow2(f64_scale(f)) as int;
    match p {
        FloatParts::NotANumber => false,
        FloatParts::Infinite { negative } => !negative,
        FloatParts::Huge { negative } => {
            assert(d == 1) by {
                vstd::arithmetic::power2::lemma2_to64();
            }
            !negative
        },
        FloatParts::Finite { negative, whole, fraction } => {
            proof {
                vstd::arithmetic::power2::lemma_pow2_pos(f64_scale(f));
                vstd::arithmetic::div_mod::lemma_fundamental_div_mod(m, d);
                lemma_scaled_compare(i as int, whole as int, m % d, d);
            }
            let ii = i as i128;
            let w = whole as i128;
            if negative {
                ii < -w
            } else {
                ii < w || (ii == w && fraction)
            }
        },
    }
}

/// Is the double `f` (given by its bit pattern) less than the integer `i`? Exact; false
/// when `f` is NaN.
pub fn float_lt_int(f: u64, i: i64) -> (r: bool)
    ensures
        r == f64_lt_int(f, i as int),
{
    let p = f64_parts(f);
    let ghost m = f64_scaled_magnitude(f);
    let ghost d = pow2(f64_scale(f)) as int;
    match p {
        FloatParts::NotANumber => false,
        FloatParts::Infinite { negative } => negative,
        FloatParts::Huge { negative } => {
            assert(d == 1) by {
                vstd::arithmetic::power2::lemma2_to64();
            }
            negative
        },
        FloatParts::Finite { negative, whole, fraction } => {
            proof {
                vstd::arithmetic::power2::lemma_pow2_pos(f64_scale(f));
                vstd::arithmetic::div_mod::lemma_fundamental_div_mod(m, d);
                lemma_scaled_compare(i as int, whole as int, m % d, d);
            }
            let ii = i as i128;
            let w = whole as i128;
            if negative {
                ii > -w || (ii == -w && fraction)
            } else {
                w < ii
            }
        },
    }
}

/// Is the integer `i` at most the double `f`? Exact; false when `f` is NaN.
pub fn int_le_float(i: i64, f: u64) -> (r: bool)
    ensures
        r == int_le_f64(i as int, f),
{
    if f64_bits_is_nan(f) {
        return false;
    }
    !float_lt_int(f, i)
}

/// Is the double `f` at most the integer `i`? Exact; false when `f` is NaN.
pub fn float_le_int(f: u64, i: i64) -> (r: bool)
    ensures
        r == f64_le_int(f, i as int),
{
    if f64_bits_is_nan(f) {
        return false;
    }
    !int_lt_float(i, f)
}

/// Away from NaN, exactly one of `i < f`, `f < i` and equality holds: the two strict tests
/// never both succeed.
pub proof fn lemma_int_float_order_exclusive(i: int, bits: u64)
    ensures
        !(int_lt_f64(i, bits) && f64_lt_int(bits, i)),
{
}

} // verus!

verus! {

/// Floor division and floor modulo fit together: `a == b * (a // b) + a % b`, and the
/// remainder lies between zero and the divisor, on the divisor's side.
pub proof fn lemma_floor_div_mod(a: int, b: int)
    requires
        b != 0,
    ensures
        a == b * floor_div(a, b) + floor_mod(a, b),
        b > 0 ==> 0 <= floor_mod(a, b) < b,
        b < 0 ==> b < floor_mod(a, b) <= 0,
{
    if b > 0 {
        vstd::arithmetic::div_mod::lemma_fundamental_div_mod(a, b);
    } else {
        vstd::arithmetic::div_mod::lemma_fundamental_div_mod(-a, -b);
        let q = (-a) / (-b);
        assert(b * q == -((-b) * q)) by (nonlinear_arith);
    }
}

/// The kind of instruction a yield interrupted, as far as finishing it is concerned.
#[derive(Clone, Copy, PartialEq, Eq, Structural, Debug)]
pub enum InterruptedOp {
    /// A binary-metamethod instruction (`MMBIN`, `MMBINI`, `MMBINK`): the result goes to the
    /// register of the arithmetic instruction just before it.
    ArithMetamethod,
    /// A unary operation or a table read (`UNM`, `BNOT`, `LEN`, `GETTABUP`, `GETTABLE`,
    /// `GETI`, `GETFIELD`, `SELF`): the result goes to its own register A.
    UnaryOrGet,
    /// A comparison (`LT`, `LE`, `LTI`, `LEI`, `GTI`, `GEI`, `EQ`): the truth of the result
    /// decides whether the following jump is skipped.
    Compare,
    /// A concatenation: the metamethod's result replaces the pair it joined.
    Concat,
    /// Anything else (calls, table writes): nothing to finish.
    Other,
}

/// How a frame resumes after a yield inside a metamethod.
#[derive(Clone, Copy, Debug)]
pub enum PendingStep {
    /// A native frame: finish it and restart the loop.
    FinishCFrame,
    /// A Lua frame: copy the stack slot `moved.0` to `moved.1` (if any), skip the next
    /// instruction if `skip_jump`, set the stack top to `top` and the call status to
    /// `call_status`, reset the frame's pending getter slot to `pending_get`, then continue.
    Resume {
        moved: Option<(usize, usize)>,
        skip_jump: bool,
        top: usize,
        call_status: u32,
        pending_get: i32,
    },
}

/// The stack top after finishing, before it is raised to the frame's top.
pub open spec fn finished_top(op: InterruptedOp, saved_pc: usize, top: usize) -> usize {
    match op {
        InterruptedOp::ArithMetamethod => if top > 0 && saved_pc >= 2 { (top - 1) as usize } else { top },
        InterruptedOp::UnaryOrGet | InterruptedOp::Compare => if top > 0 { (top - 1) as usize } else { top },
        InterruptedOp::Concat => if top > 1 { (top - 1) as usize } else { top },
        InterruptedOp::Other => top,
    }
}

/// Finish the instruction a yield interrupted (`luaV_finishOp`). The frame's `call_status`
/// tells a native frame apart; for a Lua frame (`is_lua`) the interrupted instruction is the
/// one before `saved_pc` in a code of `code_len` instructions, of kind `op` with register `a`
/// and flag `k`; `prev_a` is register A of the instruction before it. `base` is the frame's
/// base, `top` the stack top, `ci_top` the frame's top and `result` the value at `top - 1`,
/// the metamethod's result.
pub fn pending_step(
    call_status: u32,
    is_lua: bool,
    saved_pc: usize,
    code_len: usize,
    op: InterruptedOp,
    a: u8,
    prev_a: u8,
    k: bool,
    base: usize,
    top: usize,
    ci_top: usize,
    result: &LuaValue,
) -> (r: PendingStep)
    requires
        base + 255 <= usize::MAX,
        call_status & CIST_C == 0 && is_lua && 0 < saved_pc <= code_len && op == InterruptedOp::Concat
            ==> top != 2,
    ensures
        call_status & CIST_C != 0 ==> r == PendingStep::FinishCFrame,
        call_status & CIST_C == 0 ==> (r matches PendingStep::Resume { moved, skip_jump, top: t, call_status: st, pending_get } && {
            let active = is_lua && 0 < saved_pc <= code_len;
            let t1 = if active { finished_top(op, saved_pc, top) } else { top };
            &&& t == (if t1 < ci_top { ci_top } else { t1 })
            &&& st == call_status & !CIST_PENDING_FINISH
            &&& pending_get == -1
            &&& (active && op == InterruptedOp::ArithMetamethod && top > 0 && saved_pc >= 2)
                ==> moved == Some(((top - 1) as usize, (base + prev_a) as usize)) && !skip_jump
            &&& (active && op == InterruptedOp::UnaryOrGet && top > 0)
                ==> moved == Some(((top - 1) as usize, (base + a) as usize)) && !skip_jump
            &&& (active && op == InterruptedOp::Compare && top > 0)
                ==> moved is None && skip_jump == ((!(result.tag() % 16 == LUA_TNIL
                || result.tag() == LUA_VFALSE)) != k)
            &&& (active && op == InterruptedOp::Concat && top > 1)
                ==> moved == Some(((top - 1) as usize, (top - 3) as usize)) && !skip_jump
            &&& !(active && top > 0 && (op == InterruptedOp::UnaryOrGet || op == InterruptedOp::Compare
                || (op == InterruptedOp::ArithMetamethod && saved_pc >= 2) || (op == InterruptedOp::Concat
                && top > 1))) ==> moved is None && !skip_jump
        }),
{
    if call_status & CIST_C != 0 {
        return PendingStep::FinishCFrame;
    }
    let mut moved: Option<(usize, usize)> = None;
    let mut skip_jump = false;
    let mut t = top;
    if is_lua && saved_pc > 0 && saved_pc <= code_len {
        match op {
            InterruptedOp::ArithMetamethod => {
                if top > 0 && saved_pc >= 2 {
                    moved = Some((top - 1, base + prev_a as usize));
                    t = top - 1;
                }
            },
            InterruptedOp::UnaryOrGet => {
                if top > 0 {
                    moved = Some((top - 1, base + a as usize));
                    t = top - 1;
                }
            },
            InterruptedOp::Compare => {
                if top > 0 {
                    let res = result.is_truthy();
                    t = top - 1;
                    skip_jump = res != k;
                }
            },
            InterruptedOp::Concat => {
                if top > 1 {
                    moved = Some((top - 1, top - 3));
                    t = top - 1;
                }
            },
            InterruptedOp::Other => {},
        }
    }
    if t < ci_top {
        t = ci_top;
    }
    PendingStep::Resume {
        moved,
        skip_jump,
        top: t,
        call_status: call_status & !CIST_PENDING_FINISH,
        pending_get: -1,
    }
}

/// How a native frame left on the call stack by a yield is finished.
#[derive(Clone, Copy, PartialEq, Eq, Structural, Debug)]
pub enum FinishKind {
    /// A protected call whose error recovery was interrupted: close what is left, then the
    /// results are `false` and the error (passed through the handler for `xpcall`).
    ProtectedError { xpcall: bool },
    /// A protected call whose body completed: the results are `true` and the body's results.
    ProtectedDone,
    /// An unprotected yieldable call: the body's results move down to the function slot.
    Unprotected,
    /// Any other native frame: it is popped.
    Plain,
}

/// Tell, from a frame's call status, how to finish it.
pub fn finish_kind(call_status: u32) -> (r: FinishKind)
    ensures
        call_status & CIST_YPCALL != 0 && call_status & CIST_RECST != 0 ==> r == (FinishKind::ProtectedError {
            xpcall: call_status & CIST_XPCALL != 0,
        }),
        call_status & CIST_YPCALL != 0 && call_status & CIST_RECST == 0 ==> r == FinishKind::ProtectedDone,
        call_status & CIST_YPCALL == 0 && call_status & CIST_YCALL != 0 ==> r == FinishKind::Unprotected,
        call_status & CIST_YPCALL == 0 && call_status & CIST_YCALL == 0 ==> r == FinishKind::Plain,
{
    if call_status & CIST_YPCALL != 0 {
        if call_status & CIST_RECST != 0 {
            FinishKind::ProtectedError { xpcall: call_status & CIST_XPCALL != 0 }
        } else {
            FinishKind::ProtectedDone
        }
    } else if call_status & CIST_YCALL != 0 {
        FinishKind::Unprotected
    } else {
        FinishKind::Plain
    }
}

/// The number of results a body left above its function slot `func_pos`: the values from
/// `func_pos + 1` up to the stack top (none if the top is below).
pub fn body_result_count(func_pos: usize, top: usize) -> (r: usize)
    requires
        func_pos < usize::MAX,
    ensures
        r == (if top > func_pos + 1 { top - func_pos - 1 } else { 0 }),
{
    top.saturating_sub(func_pos + 1)
}

/// Where the results of a finished native call end up.
#[derive(Clone, Copy, PartialEq, Eq, Structural, Debug)]
pub struct ResultLayout {
    /// Slots `nil_from..nil_to` are filled with nil (missing wanted results).
    pub nil_from: usize,
    pub nil_to: usize,
    /// The stack top afterwards.
    pub top: usize,
    /// The caller frame's new top, when it changes.
    pub caller_top: Option<u32>,
}

/// Lay out `n` results at the function slot `func_pos` when `nresults` are wanted (-1: all).
/// A fixed count is padded with nil; the stack top is then one past the results, except that
/// with a caller frame (`caller_top` is its top) and a fixed count it goes back to the
/// caller's top; with all results wanted the caller's top is raised to cover them.
pub fn finish_results(func_pos: usize, n: usize, nresults: i32, caller_top: Option<u32>) -> (r: ResultLayout)
    requires
        nresults >= -1,
        func_pos + n <= usize::MAX,
        func_pos + nresults <= usize::MAX,
    ensures
        ({
            let new_top = if nresults == -1 { func_pos + n } else { func_pos + nresults };
            &&& nresults >= 0 && n < nresults ==> r.nil_from == func_pos + n && r.nil_to == func_pos + nresults
            &&& !(nresults >= 0 && n < nresults) ==> r.nil_from == r.nil_to
            &&& nresults == -1 || caller_top is None ==> r.top == new_top
            &&& nresults != -1 && caller_top is Some ==> r.top == caller_top->0
            &&& nresults == -1 && caller_top is Some && (caller_top->0 as int) < new_top ==> r.caller_top == Some(new_top as u32)
            &&& !(nresults == -1 && caller_top is Some && (caller_top->0 as int) < new_top) ==> r.caller_top is None
        }),
{
    let new_top: usize = if nresults == -1 {
        func_pos + n
    } else {
        func_pos + nresults as usize
    };
    let mut nil_from: usize = 0;
    let mut nil_to: usize = 0;
    if nresults >= 0 && n < nresults as usize {
        nil_from = func_pos + n;
        nil_to = func_pos + nresults as usize;
    }
    let mut top = new_top;
    let mut new_caller_top: Option<u32> = None;
    match caller_top {
        Some(ct) => {
            if nresults == -1 {
                if (ct as usize) < new_top {
                    new_caller_top = Some(#[verifier::truncate] (new_top as u32));
                }
            } else {
                top = ct as usize;
            }
        },
        None => {},
    }
    ResultLayout { nil_from, nil_to, top, caller_top: new_caller_top }
}

} // verus!
