use luars::lua_value::lua_value::LuaValue;
use luars::lua_vm::execute::cold::{
    forlimit_float, forprep_int, handle_getvarg, ForPrepError, IntForPrep, VarargAccess,
};
use luars::lua_vm::execute::concat::{
    concat_outcome, concat_step, concat_values, is_concat_convertible, value_to_bytes_write,
    ConcatStep, ConcatValue,
};
use luars::lua_vm::execute::helper::{
    float_le_int, float_lt_int, int_le_float, int_lt_float, ivalue, lua_idiv, lua_imod,
    lua_shiftl, lua_shiftr, setbfvalue, setbtvalue, setivalue, setnilvalue, tointeger,
    tointegerns, ttisfloat, ttisinteger, ttisstring,
};
use luars::lua_vm::execute::noinline::{LenResult, MmBinResult};

fn bits(f: f64) -> u64 {
    f.to_bits()
}

#[test]
fn shifts() {
    assert_eq!(lua_shiftl(1, 63), i64::MIN);
    assert_eq!(lua_shiftl(1, 64), 0);
    assert_eq!(lua_shiftl(1, -1), 0);
    assert_eq!(lua_shiftl(-1, -1), i64::MAX);
    assert_eq!(lua_shiftl(3, 2), 12);
    assert_eq!(lua_shiftl(5, -64), 0);
    assert_eq!(lua_shiftr(16, 2), 4);
    assert_eq!(lua_shiftr(1, -3), 8);
    assert_eq!(lua_shiftr(-1, 60), 15);
    assert_eq!(lua_shiftr(1, i64::MIN), 0);
}

#[test]
fn floor_division_and_modulo() {
    assert_eq!(lua_idiv(7, 2), 3);
    assert_eq!(lua_idiv(-7, 2), -4);
    assert_eq!(lua_idiv(7, -2), -4);
    assert_eq!(lua_idiv(-7, -2), 3);
    assert_eq!(lua_idiv(6, -3), -2);
    assert_eq!(lua_idiv(i64::MIN, -1), i64::MIN);
    assert_eq!(lua_idiv(0, -5), 0);
    assert_eq!(lua_imod(7, 3), 1);
    assert_eq!(lua_imod(-7, 3), 2);
    assert_eq!(lua_imod(7, -3), -2);
    assert_eq!(lua_imod(-7, -3), -1);
    assert_eq!(lua_imod(6, -3), 0);
    assert_eq!(lua_imod(i64::MIN, -1), 0);
    for a in [-9i64, -5, -1, 0, 1, 4, 9, i64::MAX, i64::MIN + 1] {
        for b in [-4i64, -3, -1, 1, 2, 5] {
            assert_eq!(lua_idiv(a, b) * b + lua_imod(a, b), a);
        }
    }
}

#[test]
fn value_setters() {
    let mut v = LuaValue::nil();
    setivalue(&mut v, 9);
    assert!(ttisinteger(&v));
    assert_eq!(ivalue(&v), 9);
    setbtvalue(&mut v);
    assert!(v.ttistrue());
    setbfvalue(&mut v);
    assert!(v.ttisfalse());
    setnilvalue(&mut v);
    assert!(v.ttisstrictnil());
    assert!(!ttisfloat(&v));
    assert!(!ttisstring(&v));
    assert!(ttisfloat(&LuaValue::float_from_bits(bits(1.0))));
}

#[test]
fn integer_conversion() {
    let mut out = -1i64;
    assert!(tointegerns(&LuaValue::integer(5), &mut out));
    assert_eq!(out, 5);
    assert!(tointegerns(&LuaValue::float_from_bits(bits(5.0)), &mut out));
    assert_eq!(out, 5);
    out = 77;
    assert!(!tointegerns(&LuaValue::float_from_bits(bits(5.5)), &mut out));
    assert_eq!(out, 77);
    assert!(!tointegerns(&LuaValue::nil(), &mut out));
    assert!(!tointeger(&LuaValue::float_from_bits(bits(9.3e18)), &mut out));
    assert!(tointeger(&LuaValue::float_from_bits(bits(-9.0e18)), &mut out));
    assert_eq!(out, -9_000_000_000_000_000_000);
}

#[test]
fn mixed_comparisons() {
    assert!(int_lt_float(1, bits(1.5)));
    assert!(!int_lt_float(2, bits(1.5)));
    assert!(!int_lt_float(1, bits(1.0)));
    assert!(int_lt_float(-2, bits(-1.5)));
    assert!(!int_lt_float(-1, bits(-1.5)));
    assert!(int_lt_float(i64::MAX, bits(9223372036854775808.0)));
    assert!(!int_lt_float(i64::MIN, bits(-9223372036854775808.0)));
    assert!(!int_lt_float(0, bits(f64::NAN)));
    assert!(int_lt_float(i64::MAX, bits(f64::INFINITY)));
    assert!(!int_lt_float(i64::MIN, bits(f64::NEG_INFINITY)));
    assert!(int_lt_float(-1, bits(-0.5)));
    assert!(!int_lt_float(0, bits(-0.0)));

    assert!(float_lt_int(bits(-0.5), 0));
    assert!(!float_lt_int(bits(1.0), 1));
    assert!(float_lt_int(bits(0.5), 1));
    assert!(!float_lt_int(bits(1.5), 1));
    assert!(float_lt_int(bits(-1.5), -1));
    assert!(!float_lt_int(bits(f64::NAN), 0));
    assert!(float_lt_int(bits(-1e300), i64::MIN));

    assert!(int_le_float(1, bits(1.0)));
    assert!(!int_le_float(2, bits(1.5)));
    assert!(!int_le_float(0, bits(f64::NAN)));
    assert!(float_le_int(bits(1.0), 1));
    assert!(!float_le_int(bits(1.5), 1));
    assert!(!float_le_int(bits(f64::NAN), 1));
    // Large integers that do not round-trip through a double.
    let big = (1i64 << 53) + 1;
    assert!(!int_lt_float(big, bits(9007199254740992.0)));
    assert!(float_lt_int(bits(9007199254740992.0), big));
}

#[test]
fn integer_for_loops() {
    assert_eq!(forprep_int(1, 10, 0), Err(ForPrepError::StepIsZero));
    assert_eq!(forprep_int(5, 1, 1), Ok(IntForPrep::Skip));
    assert_eq!(forprep_int(1, 5, -1), Ok(IntForPrep::Skip));
    assert_eq!(forprep_int(1, 10, 1), Ok(IntForPrep::Run { count: 9 }));
    assert_eq!(forprep_int(1, 10, 3), Ok(IntForPrep::Run { count: 3 }));
    assert_eq!(forprep_int(10, 1, -4), Ok(IntForPrep::Run { count: 2 }));
    assert_eq!(forprep_int(i64::MIN, i64::MAX, 1), Ok(IntForPrep::Run { count: u64::MAX }));
    assert_eq!(forprep_int(i64::MAX, i64::MIN, i64::MIN), Ok(IntForPrep::Run { count: 1 }));
    assert_eq!(forprep_int(3, 3, 7), Ok(IntForPrep::Run { count: 0 }));
}

#[test]
fn float_for_limits() {
    assert_eq!(forlimit_float(bits(2.5), 1, 1), (2, false));
    assert_eq!(forlimit_float(bits(2.5), 1, -1), (3, true));
    assert_eq!(forlimit_float(bits(-2.5), 0, 1), (-3, true));
    assert_eq!(forlimit_float(bits(-2.5), 0, -1), (-2, false));
    assert_eq!(forlimit_float(bits(f64::NAN), 0, 1), (0, true));
    assert_eq!(forlimit_float(bits(f64::NAN), 0, -1), (i64::MIN, false));
    assert_eq!(forlimit_float(bits(1e30), 0, 1), (i64::MAX, false));
    assert_eq!(forlimit_float(bits(1e30), 0, -1), (0, true));
    assert_eq!(forlimit_float(bits(-1e30), 0, -1), (i64::MIN, false));
    assert_eq!(forlimit_float(bits(-1e30), 0, 1), (0, true));
    assert_eq!(forlimit_float(bits(f64::INFINITY), 0, -2), (0, true));
    assert_eq!(forlimit_float(bits(9223372036854775807.0), 0, 1), (i64::MAX, false));
    assert_eq!(forlimit_float(bits(-9223372036854775808.0), 0, -1), (i64::MIN, false));
    assert_eq!(forlimit_float(bits(-0.0), 0, 1), (0, false));
}

#[test]
fn vararg_access() {
    let n = LuaValue::shortstring(luars::gc::gc_object::StringPtr::new(0x1000));
    assert_eq!(handle_getvarg(&n, b"n", 10, 3), VarargAccess::Count(3));
    assert_eq!(handle_getvarg(&n, b"x", 10, 3), VarargAccess::Nil);
    assert_eq!(handle_getvarg(&LuaValue::integer(1), b"", 10, 3), VarargAccess::Slot(6));
    assert_eq!(handle_getvarg(&LuaValue::integer(3), b"", 10, 3), VarargAccess::Slot(8));
    assert_eq!(handle_getvarg(&LuaValue::integer(4), b"", 10, 3), VarargAccess::Nil);
    assert_eq!(handle_getvarg(&LuaValue::integer(0), b"", 10, 3), VarargAccess::Nil);
    assert_eq!(
        handle_getvarg(&LuaValue::float_from_bits(bits(2.0)), b"", 10, 3),
        VarargAccess::Slot(7)
    );
    assert_eq!(
        handle_getvarg(&LuaValue::float_from_bits(bits(2.5)), b"", 10, 3),
        VarargAccess::Nil
    );
    assert_eq!(handle_getvarg(&LuaValue::integer(1), b"", 10, 0), VarargAccess::Nil);
    assert_eq!(handle_getvarg(&LuaValue::nil(), b"", 10, 3), VarargAccess::Nil);
}

#[test]
fn concatenation_pieces() {
    let mut buf = b"x".to_vec();
    assert_eq!(value_to_bytes_write(&LuaValue::integer(-42), None, &mut buf), Some(false));
    assert_eq!(buf, b"x-42".to_vec());
    assert_eq!(value_to_bytes_write(&LuaValue::integer(0), None, &mut buf), Some(false));
    assert_eq!(buf, b"x-420".to_vec());
    let s = LuaValue::shortstring(luars::gc::gc_object::StringPtr::new(0x2000));
    assert_eq!(value_to_bytes_write(&s, Some(b"ab"), &mut buf), Some(true));
    assert_eq!(buf, b"x-420ab".to_vec());
    assert_eq!(value_to_bytes_write(&LuaValue::nil(), None, &mut buf), None);
    assert_eq!(value_to_bytes_write(&LuaValue::boolean(true), None, &mut buf), None);
    assert_eq!(buf, b"x-420ab".to_vec());
    let f = LuaValue::float_from_bits(bits(1.5));
    assert_eq!(value_to_bytes_write(&f, Some(b"1.5"), &mut buf), Some(false));
    assert_eq!(buf, b"x-420ab1.5".to_vec());

    assert!(is_concat_convertible(&LuaValue::integer(1), false));
    assert!(is_concat_convertible(&s, false));
    assert!(!is_concat_convertible(&LuaValue::nil(), true));

    let vals = [s, LuaValue::integer(i64::MIN), f];
    let texts = vec![Some(b"k".to_vec()), None, Some(b"2.0".to_vec())];
    assert_eq!(concat_values(&vals, &texts), Ok(b"k-92233720368547758082.0".to_vec()));
    let bad = [s, LuaValue::nil(), LuaValue::integer(1)];
    let texts2 = vec![Some(b"k".to_vec()), None, None];
    assert_eq!(concat_values(&bad, &texts2), Err(1));
}

#[test]
fn metamethod_outcomes() {
    assert!(MmBinResult::CallMm != MmBinResult::Handled);
    assert!(LenResult::RawLen != LenResult::FallThrough);
}

#[test]
fn test_concat_empty() {
    let vals: [LuaValue; 0] = [];
    let texts: Vec<Option<Vec<u8>>> = Vec::new();
    assert_eq!(concat_values(&vals, &texts), Ok(Vec::new()));
    assert_eq!(concat_outcome(&vals, &texts), Ok(ConcatValue::Text(Vec::new())));
}

#[test]
fn test_concat_numbers() {
    let x = LuaValue::shortstring(luars::gc::gc_object::StringPtr::new(0x2000));
    let y = LuaValue::shortstring(luars::gc::gc_object::StringPtr::new(0x2100));
    let vals = [x, LuaValue::integer(42), y];
    let texts = vec![Some(b"x".to_vec()), None, Some(b"y".to_vec())];
    assert_eq!(concat_values(&vals, &texts), Ok(b"x42y".to_vec()));
    assert_eq!(concat_outcome(&vals, &texts), Ok(ConcatValue::Text(b"x42y".to_vec())));
}

#[test]
fn concatenation_result_kinds() {
    let s = LuaValue::shortstring(luars::gc::gc_object::StringPtr::new(0x2000));
    let b = LuaValue::binary(luars::gc::gc_object::BinaryPtr::new(0x2200));
    // a single string or binary is the result itself
    assert_eq!(concat_outcome(&[s], &[Some(b"hello".to_vec())]), Ok(ConcatValue::Keep));
    assert_eq!(concat_outcome(&[b], &[Some(vec![0xff])]), Ok(ConcatValue::Keep));
    // a single number is converted
    assert_eq!(concat_outcome(&[LuaValue::integer(7)], &[None]), Ok(ConcatValue::Text(b"7".to_vec())));
    // binary bytes that are not UTF-8 give a binary value
    assert_eq!(
        concat_outcome(&[s, b], &[Some(b"a".to_vec()), Some(vec![0xff])]),
        Ok(ConcatValue::Binary(vec![b'a', 0xff]))
    );
    // binary bytes that are valid UTF-8 give a string
    assert_eq!(
        concat_outcome(&[s, b], &[Some(b"a".to_vec()), Some(b"b".to_vec())]),
        Ok(ConcatValue::Text(b"ab".to_vec()))
    );
    assert_eq!(concat_outcome(&[s, LuaValue::nil()], &[Some(b"a".to_vec()), None]), Err(1));
}

use luars::gc::gc_object::{CClosurePtr, FunctionPtr, TablePtr, UserdataPtr};
use luars::lua_vm::call_info::call_status::{get_ccmt_count, set_ccmt_count, CIST_C, CIST_PENDING_FINISH};
use luars::lua_vm::execute::call::{
    call_step, native_call_results, tail_frame, CallStep, FrameAction, TailFrame,
};
use luars::lua_vm::execute::helper::{
    body_result_count, finish_kind, finish_results, pending_step, FinishKind, InterruptedOp,
    PendingStep, ResultLayout,
};
use luars::lua_vm::call_info::call_status::{CIST_RECST, CIST_XPCALL, CIST_YCALL, CIST_YPCALL};
use luars::lua_vm::execute::noinline::{len_meta_step, len_step, mmbin_meta_step, LenStep};

#[test]
fn call_steps_by_callee_kind() {
    let lua_fn = LuaValue::function(FunctionPtr::new(0x1000));
    let native = LuaValue::cclosure(CClosurePtr::new(0x1100));
    let ud = LuaValue::userdata(UserdataPtr::new(0x1200));
    let t = LuaValue::table(TablePtr::new(0x1300));

    let s = call_step(&lua_fn, 10, 3, 2, 99, 0, false, false);
    assert_eq!(s, CallStep::PushLua { top: Some(13), nargs: 2, nresults: 1 });
    assert_eq!(s.frame_action(), Some(FrameAction::Call));
    // variable arguments: everything up to the top
    assert_eq!(
        call_step(&lua_fn, 10, 0, 0, 15, 0, false, false),
        CallStep::PushLua { top: None, nargs: 4, nresults: -1 }
    );
    assert_eq!(
        call_step(&lua_fn, 10, 0, 0, 5, 0, false, false),
        CallStep::PushLua { top: None, nargs: 0, nresults: -1 }
    );
    let n = call_step(&native, 10, 1, 1, 99, 0, false, false);
    assert_eq!(n, CallStep::CallNative { top: Some(11), nargs: 0, nresults: 0 });
    assert_eq!(n.frame_action(), Some(FrameAction::Continue));
    assert_eq!(call_step(&ud, 10, 2, 1, 99, 0, true, true), CallStep::UserdataCall { nargs: 1, b: 3 });
    let mm = call_step(&t, 10, 2, 1, 99, 0, false, true);
    assert_eq!(mm, CallStep::CallMetamethod { nargs: 1, b: 3, status: set_ccmt_count(0, 1) });
    assert_eq!(mm.frame_action(), None);
    if let CallStep::CallMetamethod { status, .. } = mm {
        assert_eq!(get_ccmt_count(status), 1);
    }
    assert_eq!(call_step(&t, 10, 2, 1, 99, set_ccmt_count(0, 15), false, true), CallStep::ChainTooLong);
    assert_eq!(call_step(&t, 10, 2, 1, 99, 0, false, false), CallStep::NotCallable);
    assert_eq!(call_step(&LuaValue::nil(), 10, 0, 1, 99, 0, false, false), CallStep::NotCallable);
}

#[test]
fn length_steps() {
    let s = LuaValue::shortstring(luars::gc::gc_object::StringPtr::new(0x2000));
    let t = LuaValue::table(TablePtr::new(0x1300));
    let ud = LuaValue::userdata(UserdataPtr::new(0x1200));
    assert_eq!(len_step(&s, 5, false, false, false, false, false), LenStep::Length(5));
    assert_eq!(len_step(&t, 0, false, false, true, false, false), LenStep::RawLen { record_absent: false });
    assert_eq!(len_step(&t, 0, true, true, true, false, false), LenStep::RawLen { record_absent: false });
    assert_eq!(len_step(&t, 0, true, false, true, false, false), LenStep::CallMm);
    assert_eq!(len_step(&t, 0, true, false, false, false, false), LenStep::RawLen { record_absent: true });
    assert_eq!(len_step(&ud, 0, false, false, false, true, true), LenStep::UserdataLen);
    assert_eq!(len_step(&ud, 0, false, false, false, false, true), LenStep::CallMm);
    assert_eq!(len_step(&LuaValue::integer(3), 0, false, false, false, false, false), LenStep::TypeError);

    let lua_fn = LuaValue::function(FunctionPtr::new(0x1000));
    let native = LuaValue::cclosure(CClosurePtr::new(0x1100));
    assert_eq!(len_meta_step(true, Some(&lua_fn)), (LenResult::RawLen, false));
    assert_eq!(len_meta_step(false, Some(&lua_fn)), (LenResult::CallMm, false));
    assert_eq!(len_meta_step(false, Some(&native)), (LenResult::FallThrough, false));
    assert_eq!(len_meta_step(false, None), (LenResult::RawLen, true));
    assert_eq!(mmbin_meta_step(false, false, Some(&lua_fn)), (MmBinResult::FallThrough, false));
    assert_eq!(mmbin_meta_step(true, true, Some(&lua_fn)), (MmBinResult::FallThrough, false));
    assert_eq!(mmbin_meta_step(true, false, Some(&lua_fn)), (MmBinResult::CallMm, false));
    assert_eq!(mmbin_meta_step(true, false, Some(&native)), (MmBinResult::Handled, false));
    assert_eq!(mmbin_meta_step(true, false, None), (MmBinResult::FallThrough, true));
}

#[test]
fn pending_steps_by_opcode_group() {
    let t = LuaValue::boolean(true);
    let f = LuaValue::boolean(false);
    assert!(matches!(
        pending_step(CIST_C, true, 3, 10, InterruptedOp::UnaryOrGet, 1, 0, false, 20, 30, 0, &t),
        PendingStep::FinishCFrame
    ));
    let st = CIST_PENDING_FINISH | 1;
    match pending_step(st, true, 3, 10, InterruptedOp::ArithMetamethod, 1, 4, false, 20, 30, 0, &t) {
        PendingStep::Resume { moved, skip_jump, top, call_status, pending_get } => {
            assert_eq!(pending_get, -1);
            assert_eq!(moved, Some((29, 24)));
            assert!(!skip_jump);
            assert_eq!(top, 29);
            assert_eq!(call_status, 1);
        }
        _ => panic!(),
    }
    match pending_step(st, true, 3, 10, InterruptedOp::UnaryOrGet, 2, 4, false, 20, 30, 40, &t) {
        PendingStep::Resume { moved, top, .. } => {
            assert_eq!(moved, Some((29, 22)));
            assert_eq!(top, 40);
        }
        _ => panic!(),
    }
    match pending_step(st, true, 3, 10, InterruptedOp::Compare, 0, 0, true, 20, 30, 0, &f) {
        PendingStep::Resume { moved, skip_jump, top, .. } => {
            assert_eq!(moved, None);
            assert!(skip_jump);
            assert_eq!(top, 29);
        }
        _ => panic!(),
    }
    match pending_step(st, true, 3, 10, InterruptedOp::Compare, 0, 0, true, 20, 30, 0, &t) {
        PendingStep::Resume { skip_jump, .. } => assert!(!skip_jump),
        _ => panic!(),
    }
    match pending_step(st, true, 3, 10, InterruptedOp::Concat, 0, 0, false, 20, 30, 0, &t) {
        PendingStep::Resume { moved, top, .. } => {
            assert_eq!(moved, Some((29, 27)));
            assert_eq!(top, 29);
        }
        _ => panic!(),
    }
    match pending_step(st, true, 0, 10, InterruptedOp::UnaryOrGet, 2, 4, false, 20, 30, 0, &t) {
        PendingStep::Resume { moved, top, .. } => {
            assert_eq!(moved, None);
            assert_eq!(top, 30);
        }
        _ => panic!(),
    }
}

#[test]
fn concatenation_slow_path_steps() {
    assert_eq!(concat_step(&[true], 1, false, false), ConcatStep::Done);
    assert_eq!(concat_step(&[false, true, true, true], 4, false, false), ConcatStep::Coalesce(3));
    assert_eq!(concat_step(&[true, true, true, true], 4, false, false), ConcatStep::Coalesce(4));
    assert_eq!(concat_step(&[true, true, true, false], 3, false, false), ConcatStep::Coalesce(3));
    assert_eq!(concat_step(&[true, false], 2, true, true), ConcatStep::CallMm);
    assert_eq!(concat_step(&[true, false], 2, false, true), ConcatStep::ErrorLast);
    assert_eq!(concat_step(&[false, true], 2, false, false), ConcatStep::ErrorPrev);
}

#[test]
fn finishing_native_frames() {
    assert_eq!(finish_kind(CIST_YPCALL | CIST_RECST | CIST_XPCALL), FinishKind::ProtectedError { xpcall: true });
    assert_eq!(finish_kind(CIST_YPCALL | CIST_RECST), FinishKind::ProtectedError { xpcall: false });
    assert_eq!(finish_kind(CIST_YPCALL), FinishKind::ProtectedDone);
    assert_eq!(finish_kind(CIST_YCALL), FinishKind::Unprotected);
    assert_eq!(finish_kind(CIST_C), FinishKind::Plain);
    assert_eq!(body_result_count(10, 14), 3);
    assert_eq!(body_result_count(10, 5), 0);
    // three results wanted, two present: one nil, top back to the caller's top
    assert_eq!(
        finish_results(10, 2, 3, Some(40)),
        ResultLayout { nil_from: 12, nil_to: 13, top: 40, caller_top: None }
    );
    // all results: the caller's top is raised to cover them
    assert_eq!(
        finish_results(10, 5, -1, Some(12)),
        ResultLayout { nil_from: 0, nil_to: 0, top: 15, caller_top: Some(15) }
    );
    assert_eq!(
        finish_results(10, 5, -1, Some(40)),
        ResultLayout { nil_from: 0, nil_to: 0, top: 15, caller_top: None }
    );
    assert_eq!(
        finish_results(10, 5, 1, None),
        ResultLayout { nil_from: 0, nil_to: 0, top: 11, caller_top: None }
    );
}

#[test]
fn native_call_result_positions() {
    assert_eq!(native_call_results(10, 20, 3, -1), (17, 3));
    assert_eq!(native_call_results(10, 20, 3, 1), (17, 1));
    assert_eq!(native_call_results(10, 20, 3, 5), (17, 3));
    assert_eq!(native_call_results(10, 2, 3, 0), (11, 0));
}

#[test]
fn tail_call_frames() {
    assert_eq!(
        tail_frame(20, 1, 1, 3, 10),
        TailFrame { func_pos: 19, base: 20, nil_from: 21, nil_to: 23, nextraargs: 0, top: 30, stack_top: 23 }
    );
    assert_eq!(
        tail_frame(20, 3, 5, 2, 4),
        TailFrame { func_pos: 17, base: 18, nil_from: 0, nil_to: 0, nextraargs: 3, top: 22, stack_top: 23 }
    );
}

use luars::lua_vm::execute::call::{
    caller_oldpc, chain_step, native_call_hooks, native_hook_transfers, push_call_layer, ChainStep,
    NativeHooks,
};

#[test]
fn call_chain_layers() {
    let lua_fn = LuaValue::function(FunctionPtr::new(0x1000));
    let t = LuaValue::table(TablePtr::new(0x1300));
    let ud = LuaValue::userdata(UserdataPtr::new(0x1200));
    assert_eq!(chain_step(&lua_fn, 0, false, true), ChainStep::Callable);
    assert_eq!(chain_step(&ud, 0, true, true), ChainStep::UserdataCall);
    assert_eq!(chain_step(&t, 3, false, true), ChainStep::Metamethod);
    assert_eq!(chain_step(&t, 15, false, true), ChainStep::TooLong);
    assert_eq!(chain_step(&t, 0, false, false), ChainStep::NotCallable);

    let a1 = LuaValue::integer(1);
    let a2 = LuaValue::integer(2);
    let mm1 = LuaValue::table(TablePtr::new(0x1400));
    let mut stack = vec![LuaValue::nil(), t, a1, a2, LuaValue::nil(), LuaValue::nil()];
    assert_eq!(push_call_layer(&mut stack, 1, 2, mm1), Ok(5));
    assert_eq!(stack[1].raw_ptr_repr(), 0x1400);
    assert_eq!(stack[2].raw_ptr_repr(), 0x1300);
    assert_eq!(stack[3].ivalue(), 1);
    assert_eq!(stack[4].ivalue(), 2);
    assert_eq!(push_call_layer(&mut stack, 1, 3, lua_fn), Ok(6));
    assert!(stack[1].is_lua_function());
    assert_eq!(stack[2].raw_ptr_repr(), 0x1400);
    assert_eq!(stack[3].raw_ptr_repr(), 0x1300);
    assert_eq!(stack[4].ivalue(), 1);
    assert_eq!(stack[5].ivalue(), 2);
    // no room for another shifted argument
    assert_eq!(push_call_layer(&mut stack, 1, 4, lua_fn), Err(()));
}

#[test]
fn native_call_hooks_and_caller_pc() {
    assert_eq!(native_call_hooks(3, true), NativeHooks { call: true, ret: true });
    assert_eq!(native_call_hooks(1, true), NativeHooks { call: true, ret: false });
    assert_eq!(native_call_hooks(2, false), NativeHooks { call: false, ret: false });
    assert_eq!(native_hook_transfers(10, 13, 11, 2), (3, 2, 2));
    assert_eq!(caller_oldpc(0, 7), Some(6));
    assert_eq!(caller_oldpc(0, 0), Some(0));
    assert_eq!(caller_oldpc(CIST_C, 7), None);
}
