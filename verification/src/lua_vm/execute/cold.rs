use vstd::arithmetic::power2::pow2;
use vstd::prelude::*;

use crate::lua_value::lua_value::{
    f64_is_infinite, f64_is_nan, f64_negative, f64_parts, f64_scale, f64_scaled,
    f64_scaled_magnitude, FloatParts, LuaValue,
};
use crate::lua_vm::execute::concat::is_text;
use crate::lua_vm::execute::helper::{number_to_integer, tointegerns};

verus! {

/// How an integer `for` loop starts.
#[derive(Clone, Copy, PartialEq, Eq, Structural, Debug)]
pub enum IntForPrep {
    /// The loop body never runs.
    Skip,
    /// The body runs `count + 1` times.
    Run { count: u64 },
}

/// Why a `for` loop cannot start.
#[derive(Clone, Copy, PartialEq, Eq, Structural, Debug)]
pub enum ForPrepError {
    /// The step is zero.
    StepIsZero,
}

/// The loop is skipped: the initial value is already past the limit in the direction of
/// the step.
pub open spec fn for_skips(init: int, limit: int, step: int) -> bool {
    if step > 0 {
        init > limit
    } else {
        init < limit
    }
}

/// The number of further iterations after the first: how many whole steps fit between the
/// initial value and the limit.
pub open spec fn for_iterations(init: int, limit: int, step: int) -> int {
    if step > 0 {
        (limit - init) / step
    } else {
        (init - limit) / (-step)
    }
}

/// Prepare an integer `for` loop with an integer limit: an error for a zero step, `Skip`
/// when the body never runs, else the number of iterations after the first.
pub fn forprep_int(init: i64, limit: i64, step: i64) -> (r: Result<IntForPrep, ForPrepError>)
    ensures
        step == 0 ==> r == Err::<IntForPrep, ForPrepError>(ForPrepError::StepIsZero),
        step != 0 && for_skips(init as int, limit as int, step as int) ==> r == Ok::<
            IntForPrep,
            ForPrepError,
        >(IntForPrep::Skip),
        step != 0 && !for_skips(init as int, limit as int, step as int) ==> (r matches Ok(
            IntForPrep::Run { count },
        ) && count == for_iterations(init as int, limit as int, step as int)),
{
    if step == 0 {
        return Err(ForPrepError::StepIsZero);
    }
    let skip = if step > 0 {
        init > limit
    } else {
        init < limit
    };
    if skip {
        return Ok(IntForPrep::Skip);
    }
    let count: u64;
    if step > 0 {
        let span: u64 = (limit as u64).wrapping_sub(init as u64);
        assert(span == limit - init) by (bit_vector)
            requires
                init <= limit,
                span == (limit as u64).wrapping_sub(init as u64),
        ;
        count = span / (step as u64);
    } else {
        let step_abs: u64 = if step == i64::MIN {
            0x8000_0000_0000_0000u64
        } else {
            (-step) as u64
        };
        let span: u64 = (init as u64).wrapping_sub(limit as u64);
        assert(span == init - limit) by (bit_vector)
            requires
                limit <= init,
                span == (init as u64).wrapping_sub(limit as u64),
        ;
        count = span / step_abs;
    }
    Ok(IntForPrep::Run { count })
}

/// The iterations a prepared loop runs stay within the limit, and one more step would pass
/// it: with `count` further iterations, `init + count * step` is the last value the loop
/// variable takes.
pub proof fn lemma_for_iterations_bounds(init: int, limit: int, step: int)
    requires
        step != 0,
        !for_skips(init, limit, step),
    ensures
        for_iterations(init, limit, step) >= 0,
        step > 0 ==> init + for_iterations(init, limit, step) * step <= limit < init + (
        for_iterations(init, limit, step) + 1) * step,
        step < 0 ==> init + for_iterations(init, limit, step) * step >= limit > init + (
        for_iterations(init, limit, step) + 1) * step,
{
    if step > 0 {
        let d = limit - init;
        vstd::arithmetic::div_mod::lemma_fundamental_div_mod(d, step);
        vstd::arithmetic::div_mod::lemma_div_pos_is_pos(d, step);
        let q = d / step;
        assert(init + q * step <= limit < init + (q + 1) * step) by (nonlinear_arith)
            requires
                d == step * q + d % step,
                0 <= d % step < step,
                d == limit - init,
        ;
    } else {
        let d = init - limit;
        let s = -step;
        vstd::arithmetic::div_mod::lemma_fundamental_div_mod(d, s);
        vstd::arithmetic::div_mod::lemma_div_pos_is_pos(d, s);
        let q = d / s;
        assert(init + q * step >= limit > init + (q + 1) * step) by (nonlinear_arith)
            requires
                d == s * q + d % s,
                0 <= d % s < s,
                d == init - limit,
                s == -step,
        ;
    }
}

} // verus!

verus! {

/// The float limit of an integer loop rounded toward the loop's direction: down (floor) for
/// a positive step, up (ceiling) for a negative one. Only meaningful for finite limits.
pub open spec fn rounded_limit(bits: u64, step: int) -> int {
    let num = f64_scaled(bits);
    let d = pow2(f64_scale(bits)) as int;
    if step < 0 {
        -((-num) / d)
    } else {
        num / d
    }
}

/// The limit is greater than zero.
pub open spec fn f64_positive(bits: u64) -> bool {
    !f64_is_nan(bits) && (if f64_is_infinite(bits) {
        !f64_negative(bits)
    } else {
        f64_scaled(bits) > 0
    })
}

/// The integer limit and skip decision for an integer loop whose limit is a float: the
/// rounded limit when it fits in `i64`; otherwise the loop runs to the end of the integers
/// in its direction, or is skipped when the limit lies behind it (a NaN limit counts as not
/// positive).
pub open spec fn float_for_limit(bits: u64, init: int, step: int) -> (int, bool) {
    let finite = !f64_is_nan(bits) && !f64_is_infinite(bits);
    let nl = rounded_limit(bits, step);
    if finite && i64::MIN <= nl <= i64::MAX {
        (nl, for_skips(init, nl, step))
    } else if f64_positive(bits) {
        if step < 0 {
            (0, true)
        } else {
            (i64::MAX as int, false)
        }
    } else {
        if step > 0 {
            (0, true)
        } else {
            (i64::MIN as int, false)
        }
    }
}

/// For a finite float limit within the `i64` range, the integer limit is the largest integer
/// not above the float for a positive step (its floor) and the smallest integer not below it
/// for a negative step (its ceiling), and the loop is skipped exactly when the start lies
/// beyond that integer limit. The float is `f64_scaled(bits) / 2^f64_scale(bits)`.
pub proof fn lemma_float_limit_rounds_toward_loop(bits: u64, init: int, step: int)
    requires
        step != 0,
        !f64_is_nan(bits),
        !f64_is_infinite(bits),
        -0x7FFF_FFFF_FFFF_FFFFint * (pow2(f64_scale(bits)) as int) <= f64_scaled(bits)
            <= 0x7FFF_FFFF_FFFF_FFFFint * (pow2(f64_scale(bits)) as int),
    ensures
        ({
            let n = float_for_limit(bits, init, step).0;
            let num = f64_scaled(bits);
            let d = pow2(f64_scale(bits)) as int;
            &&& step > 0 ==> n * d <= num < (n + 1) * d
            &&& step < 0 ==> (n - 1) * d < num <= n * d
            &&& float_for_limit(bits, init, step).1 == (if step > 0 { init > n } else { init < n })
        }),
{
    let num = f64_scaled(bits);
    let d = pow2(f64_scale(bits)) as int;
    vstd::arithmetic::power2::lemma_pow2_pos(f64_scale(bits));
    let m: int = 0x7FFF_FFFF_FFFF_FFFF;
    if step > 0 {
        let q = num / d;
        vstd::arithmetic::div_mod::lemma_fundamental_div_mod(num, d);
        assert(q * d <= num < (q + 1) * d) by (nonlinear_arith)
            requires
                num == d * q + num % d,
                0 <= num % d < d,
        ;
        assert(-m <= q <= m) by (nonlinear_arith)
            requires
                q * d <= num < (q + 1) * d,
                -m * d <= num <= m * d,
                d > 0,
        ;
        assert(rounded_limit(bits, step) == q);
    } else {
        let q = (-num) / d;
        vstd::arithmetic::div_mod::lemma_fundamental_div_mod(-num, d);
        assert(q * d <= -num < (q + 1) * d) by (nonlinear_arith)
            requires
                -num == d * q + (-num) % d,
                0 <= (-num) % d < d,
        ;
        let n = -q;
        assert((n - 1) * d < num <= n * d) by (nonlinear_arith)
            requires
                q * d <= -num < (q + 1) * d,
                n == -q,
        ;
        assert(-m <= n <= m) by (nonlinear_arith)
            requires
                (n - 1) * d < num <= n * d,
                -m * d <= num <= m * d,
                d > 0,
        ;
        assert(rounded_limit(bits, step) == n);
    }
}

/// The integer limit of an integer loop whose limit is a float (given by its bit pattern),
/// and whether the loop is skipped.
pub fn forlimit_float(limit: u64, init: i64, step: i64) -> (r: (i64, bool))
    requires
        step != 0,
    ensures
        (r.0 as int, r.1) == float_for_limit(limit, init as int, step as int),
{
    let ghost num = f64_scaled(limit);
    let ghost m = f64_scaled_magnitude(limit);
    let ghost d = pow2(f64_scale(limit)) as int;
    proof {
        vstd::arithmetic::power2::lemma_pow2_pos(f64_scale(limit));
    }
    // The rounded limit when it fits in i64.
    let mut fits: Option<i64> = None;
    let mut positive = false;
    match f64_parts(limit) {
        FloatParts::NotANumber => {},
        FloatParts::Infinite { negative } => {
            positive = !negative;
        },
        FloatParts::Huge { negative } => {
            positive = !negative;
            proof {
                vstd::arithmetic::power2::lemma2_to64();
                assert(d == 1);
                assert(num / 1 == num);
                assert((-num) / 1 == -num);
            }
        },
        FloatParts::Finite { negative, whole, fraction } => {
            proof {
                vstd::arithmetic::div_mod::lemma_fundamental_div_mod(m, d);
                lemma_rounding(m, d, whole as int, fraction);
            }
            positive = !negative && (whole > 0 || fraction);
            // Magnitude of the rounded limit, and its sign.
            let up = (step < 0) != negative;
            if up && fraction {
                if whole < 0x8000_0000_0000_0000 {
                    let v: u64 = whole + 1;
                    fits = signed_if_fits(v, negative);
                }
            } else {
                fits = signed_if_fits(whole, negative);
            }
        },
    }
    match fits {
        Some(lim) => {
            let skip = if step > 0 {
                init > lim
            } else {
                init < lim
            };
            (lim, skip)
        },
        None => {
            if positive {
                if step < 0 {
                    (0, true)
                } else {
                    (i64::MAX, false)
                }
            } else {
                if step > 0 {
                    (0, true)
                } else {
                    (i64::MIN, false)
                }
            }
        },
    }
}

/// `v` or `-v` as an `i64`, when it fits.
fn signed_if_fits(v: u64, negative: bool) -> (r: Option<i64>)
    ensures
        r == (if i64::MIN <= (if negative { -(v as int) } else { v as int }) <= i64::MAX {
            Some((if negative { -(v as int) } else { v as int }) as i64)
        } else {
            None
        }),
{
    if negative {
        if v > 0x8000_0000_0000_0000 {
            None
        } else {
            let r: i64 = 0i64.wrapping_sub(v as i64);
            assert(r as int == -(v as int)) by (bit_vector)
                requires
                    v <= 0x8000_0000_0000_0000u64,
                    r == 0i64.wrapping_sub(v as i64),
            ;
            Some(r)
        }
    } else {
        if v > 0x7FFF_FFFF_FFFF_FFFF {
            None
        } else {
            Some(v as i64)
        }
    }
}

/// Floor and ceiling of `±m / d` in terms of the whole part `w = m / d` and whether there
/// is a fraction.
proof fn lemma_rounding(m: int, d: int, w: int, fraction: bool)
    requires
        d > 0,
        m >= 0,
        m == d * w + m % d,
        0 <= m % d < d,
        fraction == (m % d != 0),
    ensures
        m / d == w,
        (-m) / d == (if fraction { -w - 1 } else { -w }),
{
    assert(m == w * d + m % d) by (nonlinear_arith)
        requires
            m == d * w + m % d,
    ;
    vstd::arithmetic::div_mod::lemma_fundamental_div_mod_converse(m, d, w, m % d);
    if fraction {
        assert(-m == (-w - 1) * d + (d - m % d)) by (nonlinear_arith)
            requires
                m == d * w + m % d,
        ;
        vstd::arithmetic::div_mod::lemma_fundamental_div_mod_converse(-m, d, -w - 1, d - m % d);
    } else {
        assert(-m == (-w) * d + 0) by (nonlinear_arith)
            requires
                m == d * w + m % d,
                m % d == 0,
        ;
        vstd::arithmetic::div_mod::lemma_fundamental_div_mod_converse(-m, d, -w, 0);
    }
}

} // verus!

verus! {

/// What a vararg access `R[A] := varargs[R[C]]` produces.
#[derive(Clone, Copy, PartialEq, Eq, Structural, Debug)]
pub enum VarargAccess {
    /// The number of extra arguments (key `"n"`).
    Count(i64),
    /// The extra argument stored in this stack slot.
    Slot(usize),
    /// Nil: any other key, or an index out of range.
    Nil,
}

/// The stack slot of extra argument `n` (1-based): the extra arguments sit just below the
/// function slot at `base - 1`.
pub open spec fn vararg_slot(base: int, nextra: int, n: int) -> int {
    (base - 1) - nextra + n - 1
}

/// The result of a vararg access with key `key` (the bytes of its string, `key_text`, are
/// read only when it is a string): the count for `"n"`, the slot for an integral index in
/// `1..=nextra`, nil otherwise.
pub open spec fn vararg_access(key: LuaValue, key_text: Seq<u8>, base: int, nextra: int) -> VarargAccess {
    if is_text(key) {
        if key_text == seq![110u8] {
            VarargAccess::Count(nextra as i64)
        } else {
            VarargAccess::Nil
        }
    } else {
        match number_to_integer(key) {
            Some(n) => if nextra > 0 && 1 <= n <= nextra {
                VarargAccess::Slot(vararg_slot(base, nextra, n as int) as usize)
            } else {
                VarargAccess::Nil
            },
            None => VarargAccess::Nil,
        }
    }
}

/// Decide a vararg access: the number of extra arguments for the key `"n"`, the stack slot
/// of an extra argument for an integral key in range, nil otherwise.
pub fn handle_getvarg(key: &LuaValue, key_text: &[u8], base: usize, nextra: usize) -> (r: VarargAccess)
    requires
        nextra <= i32::MAX,
        nextra > 0 ==> base > nextra,
    ensures
        r == vararg_access(*key, key_text@, base as int, nextra as int),
{
    if key.is_string() && !key.is_binary() {
        if key_text.len() == 1 && key_text[0] == 110 {
            assert(key_text@ =~= seq![110u8]);
            return VarargAccess::Count(nextra as i64);
        }
        return VarargAccess::Nil;
    }
    let mut n: i64 = 0;
    if tointegerns(key, &mut n) {
        if nextra > 0 && n >= 1 && n <= nextra as i64 {
            let k = n as usize;
            return VarargAccess::Slot((base - 1) - nextra + k - 1);
        }
    }
    VarargAccess::Nil
}

} // verus!
