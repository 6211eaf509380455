use luars::lua_value::lua_value::LuaValue;
use luars::lua_vm::call_info::call_status::{
    get_ccmt_count, set_ccmt_count, CIST_C, CIST_FRESH, CIST_LUA, CIST_TAIL, MAX_CCMT,
};
use luars::lua_vm::call_info::CallInfo;
use luars::lua_vm::execute::call::FrameAction;
use luars::lua_vm::lua_limits::{LUAI_MAXCSTACK, LUAI_MAXSTACK, MAX_CALL_DEPTH};
use luars::lua_vm::lua_ref::{
    LuaAnyRef, LuaFunctionRef, LuaRefInner, LuaRefValue, LuaStringRef, LuaTableRef, RefManager,
    LUA_NOREF, LUA_REFNIL,
};
use luars::lua_vm::safe_option::{LuaSafeState, SafeOption};
use luars::lua_vm::{rotate_left, LuaRng};

#[test]
fn ccmt_count_roundtrip() {
    let status = CIST_LUA | CIST_TAIL;
    assert_eq!(get_ccmt_count(status), 0);
    let s = set_ccmt_count(status, 5);
    assert_eq!(get_ccmt_count(s), 5);
    assert_eq!(s & !MAX_CCMT, status);
    assert_eq!(s, status | (5 << 9));
    // Only the low four bits of the count are kept.
    assert_eq!(get_ccmt_count(set_ccmt_count(status, 0x1F)), 0xF);
    // Storing the count that is already there changes nothing.
    assert_eq!(set_ccmt_count(s, get_ccmt_count(s)), s);
    // The later store wins.
    assert_eq!(set_ccmt_count(set_ccmt_count(status, 3), 9), set_ccmt_count(status, 9));
}

#[test]
fn call_info_frames() {
    let f = LuaValue::integer(1);
    let ci = CallInfo::new_lua(f, 10, 3);
    assert!(ci.is_lua());
    assert!(!ci.is_c());
    assert!(!ci.is_tail());
    assert_eq!(ci.top, 13);
    assert_eq!(ci.base, 10);
    assert_eq!(ci.func_offset, 1);
    assert_eq!(ci.nresults, -1);
    assert_eq!(ci.pending_finish_get, -1);

    let mut c = CallInfo::new_c(f, 4, 0);
    assert!(c.is_c());
    assert!(!c.is_lua());
    assert_eq!(c.top, 4);
    c.set_tail();
    assert!(c.is_tail());
    assert!(c.is_c());
    assert_eq!(c.call_status, CIST_C | CIST_TAIL);

    let d = CallInfo::default();
    assert!(d.func.is_nil());
    assert_eq!(d.call_status, 0);
    assert_eq!(d.func_offset, 1);
    assert!(!d.is_lua() && !d.is_c());
    assert_eq!(CIST_FRESH, 0x20);
}

#[test]
fn ref_ids_are_reused() {
    let mut m = RefManager::new();
    let id1 = m.alloc_ref_id();
    assert_eq!(id1, 1);
    m.free_ref_id(id1);
    let id2 = m.alloc_ref_id();
    assert_eq!(id1, id2, "Ref IDs should be reused");
}

#[test]
fn ref_manager_sequence() {
    let mut m = RefManager::new();
    assert_eq!(m.alloc_ref_id(), 1);
    assert_eq!(m.alloc_ref_id(), 2);
    assert_eq!(m.alloc_ref_id(), 3);
    m.free_ref_id(2);
    m.free_ref_id(2);
    m.free_ref_id(0);
    m.free_ref_id(-5);
    m.free_ref_id(3);
    // Last released, first reused; a double release counts once.
    assert_eq!(m.alloc_ref_id(), 3);
    assert_eq!(m.alloc_ref_id(), 2);
    assert_eq!(m.alloc_ref_id(), 4);
}

#[test]
fn ref_values() {
    let direct = LuaRefValue::new_direct(LuaValue::integer(7));
    assert!(!direct.is_registry_ref());
    assert!(direct.is_valid());
    assert_eq!(direct.ref_id(), None);
    assert_eq!(direct.to_raw_ref(), LUA_NOREF);
    assert_eq!(direct.get_direct().map(|v| v.ivalue()), Some(7));

    let nil = LuaRefValue::new_direct(LuaValue::nil());
    assert_eq!(nil.to_raw_ref(), LUA_REFNIL);

    let reg = LuaRefValue::new_registry(12);
    assert!(reg.is_registry_ref());
    assert!(reg.is_valid());
    assert_eq!(reg.ref_id(), Some(12));
    assert_eq!(reg.to_raw_ref(), 12);
    assert!(reg.get_direct().is_none());
    let copy = reg.clone();
    assert_eq!(copy.ref_id(), Some(12));
    assert!(matches!(copy.inner, LuaRefInner::Registry { ref_id: 12 }));
    assert!(!LuaRefValue::new_registry(0).is_valid());

    assert_eq!(LuaTableRef::from_raw(3).ref_id(), 3);
    assert_eq!(LuaFunctionRef::from_raw(4).ref_id(), 4);
    assert_eq!(LuaStringRef::from_raw(5).ref_id(), 5);
    assert_eq!(LuaAnyRef::from_raw(6).ref_id(), 6);
}

fn reference_xoshiro(s: &mut [u64; 4]) -> u64 {
    let s0 = s[0];
    let s1 = s[1];
    let s2 = s[2] ^ s0;
    let s3 = s[3] ^ s1;
    let res = s1.wrapping_mul(5).rotate_left(7).wrapping_mul(9);
    s[0] = s0 ^ s3;
    s[1] = s1 ^ s2;
    s[2] = s2 ^ (s1 << 17);
    s[3] = s3.rotate_left(45);
    res
}

#[test]
fn rng_matches_xoshiro() {
    let mut expect = [42u64, 0xff, 7u64, 0];
    for _ in 0..16 {
        reference_xoshiro(&mut expect);
    }
    let mut rng = LuaRng::from_seed(42, 7);
    assert_eq!(rng.state, expect);
    for _ in 0..5 {
        assert_eq!(rng.next_rand(), reference_xoshiro(&mut expect));
    }
    // Same seed, same sequence.
    let mut a = LuaRng::from_seed_time(99);
    let mut b = LuaRng::from_seed(99, 0);
    assert_eq!(a.next_rand(), b.next_rand());
}

#[test]
fn rotation() {
    assert_eq!(rotate_left(1, 63), 1u64 << 63);
    assert_eq!(rotate_left(0x8000_0000_0000_0001, 1), 3);
    assert_eq!(rotate_left(0x1234, 7), 0x1234u64.rotate_left(7));
}

#[test]
fn safe_option_defaults() {
    let o = SafeOption::default();
    assert_eq!(o.max_stack_size, LUAI_MAXSTACK);
    assert_eq!(o.max_call_depth, MAX_CALL_DEPTH);
    assert_eq!(o.max_call_depth, 1024);
    assert_eq!(o.max_c_stack_depth, LUAI_MAXCSTACK);
    assert_eq!(o.max_c_stack_depth, 200);
    assert_eq!(o.max_memory_limit, isize::MAX);
    let opt = SafeOption { max_stack_size: 10, max_call_depth: 20, max_c_stack_depth: 30, max_memory_limit: 40 };
    let s = LuaSafeState::from(opt);
    assert_eq!(s.max_stack_size, 10);
    assert_eq!(s.max_call_depth, 20);
    assert_eq!(s.base_call_depth, 20);
    assert_eq!(s.max_c_stack_depth, 30);
    assert_eq!(s.base_c_stack_depth, 30);
    assert_eq!(s.max_memory_limit, 40);
}

#[test]
fn frame_actions() {
    assert!(FrameAction::Call != FrameAction::TailCall);
    assert!(FrameAction::Continue == FrameAction::Continue);
}

use luars::gc::gc_object::TablePtr;
use luars::lua_vm::lua_ref::RefRegistry;

#[test]
fn lua_ref_test_lua_ref_mechanism() {
    let mut reg = RefRegistry::new();
    let table = LuaValue::table(TablePtr::new(0x7000));
    let number = LuaValue::float_from_bits(123.456f64.to_bits());
    let nil = LuaValue::nil();

    let table_ref = reg.create_ref(table);
    let number_ref = reg.create_ref(number);
    let nil_ref = reg.create_ref(nil);
    assert!(table_ref.is_registry_ref());
    assert!(!number_ref.is_registry_ref());
    assert!(!nil_ref.is_registry_ref());

    let got = reg.get_ref_value(&table_ref);
    assert!(got.is_table());
    assert_eq!(got.raw_ptr_repr(), 0x7000);
    assert_eq!(f64::from_bits(reg.get_ref_value(&number_ref).fltvalue_bits()), 123.456);
    assert!(reg.get_ref_value(&nil_ref).is_nil());

    let id = table_ref.ref_id().unwrap();
    assert!(id > 0);
    assert!(number_ref.ref_id().is_none());
    assert!(reg.get_ref_value_by_id(id).is_table());

    reg.release_ref(table_ref);
    reg.release_ref(number_ref);
    reg.release_ref(nil_ref);
    assert!(reg.get_ref_value_by_id(id).is_nil());
    assert!(reg.registry_geti(id as i64).is_none());
    assert!(reg.get_ref_value_by_id(LUA_REFNIL).is_nil());
    assert!(reg.get_ref_value_by_id(-7).is_nil());

    // The released id is handed out again.
    let again = reg.create_ref(LuaValue::table(TablePtr::new(0x8000)));
    assert_eq!(again.ref_id(), Some(id));
    reg.release_ref_id(id);
    assert!(reg.get_ref_value_by_id(id).is_nil());
}

#[test]
fn lua_ref_test_multiple_refs() {
    let mut reg = RefRegistry::new();
    let mut refs = Vec::new();
    for i in 0..10u64 {
        refs.push(reg.create_ref(LuaValue::table(TablePtr::new(0x1000 + i * 16))));
    }
    for (i, r) in refs.iter().enumerate() {
        assert_eq!(reg.get_ref_value(r).raw_ptr_repr(), 0x1000 + i as u64 * 16);
    }
    for r in refs {
        reg.release_ref(r);
    }
    reg.registry_seti(3, LuaValue::integer(5));
    assert_eq!(reg.registry_geti(3).map(|v| v.ivalue()), Some(5));
    reg.registry_seti(3, LuaValue::nil());
    assert!(reg.registry_geti(3).is_none());
}

use luars::lua_vm::table_builder::TableBuilder;

#[test]
fn table_builder_chains() {
    let _b = TableBuilder::new()
        .set("host", LuaValue::integer(1))
        .set_int(3, LuaValue::boolean(true))
        .set_value(LuaValue::integer(7), LuaValue::nil())
        .push(LuaValue::integer(10))
        .push(LuaValue::integer(20));
    let _d = TableBuilder::default().push(LuaValue::nil());
}

#[test]
fn lua_ref_test_ref_id_reuse() {
    let mut reg = RefRegistry::new();
    let ref1 = reg.create_ref(LuaValue::table(TablePtr::new(0x9000)));
    let id1 = ref1.ref_id().unwrap();
    reg.release_ref(ref1);
    let ref2 = reg.create_ref(LuaValue::table(TablePtr::new(0x9100)));
    let id2 = ref2.ref_id().unwrap();
    assert_eq!(id1, id2, "Ref IDs should be reused");
    reg.release_ref(ref2);
}

#[test]
fn fresh_ids_count_from_one_and_avoid_ids_in_use() {
    let mut reg = RefRegistry::new();
    let mut ids = Vec::new();
    for i in 0..5u64 {
        ids.push(reg.create_ref(LuaValue::table(TablePtr::new(0x100 + i * 16))).ref_id().unwrap());
    }
    assert_eq!(ids, vec![1, 2, 3, 4, 5]);
    reg.release_ref_id(3);
    reg.release_ref_id(3);
    let a = reg.create_ref(LuaValue::table(TablePtr::new(0x500))).ref_id().unwrap();
    let b = reg.create_ref(LuaValue::table(TablePtr::new(0x600))).ref_id().unwrap();
    assert_eq!(a, 3);
    assert_eq!(b, 6);
}

#[test]
fn mod_test_lua_ref_mechanism() {
    let mut reg = RefRegistry::new();
    let table = LuaValue::table(TablePtr::new(0xA000));
    let number = LuaValue::float_from_bits(123.456f64.to_bits());
    let table_ref = reg.create_ref(table);
    let number_ref = reg.create_ref(number);
    let nil_ref = reg.create_ref(LuaValue::nil());
    assert!(table_ref.is_registry_ref(), "Table should use registry");
    assert!(!number_ref.is_registry_ref(), "Number should be direct");
    assert!(!nil_ref.is_registry_ref(), "Nil should be direct");
    assert!(reg.get_ref_value(&table_ref).is_table(), "Should retrieve table");
    assert_eq!(f64::from_bits(reg.get_ref_value(&number_ref).fltvalue_bits()), 123.456, "Should retrieve number");
    assert!(reg.get_ref_value(&nil_ref).is_nil(), "Should retrieve nil");
    let id = table_ref.ref_id();
    assert!(id.is_some(), "Table ref should have ID");
    assert!(id.unwrap() > 0, "Ref ID should be positive");
    assert!(number_ref.ref_id().is_none(), "Number ref should not have ID");
    reg.release_ref(table_ref);
    reg.release_ref(number_ref);
    reg.release_ref(nil_ref);
    assert!(reg.get_ref_value_by_id(id.unwrap()).is_nil(), "Released ref should return nil");
}

#[test]
fn mod_test_ref_id_reuse() {
    let mut reg = RefRegistry::new();
    let ref1 = reg.create_ref(LuaValue::table(TablePtr::new(0xB000)));
    let id1 = ref1.ref_id().unwrap();
    reg.release_ref(ref1);
    let ref2 = reg.create_ref(LuaValue::table(TablePtr::new(0xB100)));
    let id2 = ref2.ref_id().unwrap();
    assert_eq!(id1, id2, "Ref IDs should be reused");
    reg.release_ref(ref2);
}

#[test]
fn mod_test_multiple_refs() {
    let mut reg = RefRegistry::new();
    let mut refs = Vec::new();
    for i in 0..10u64 {
        refs.push(reg.create_ref(LuaValue::table(TablePtr::new(0xC000 + i * 16))));
    }
    for (i, r) in refs.iter().enumerate() {
        assert_eq!(reg.get_ref_value(r).raw_ptr_repr(), 0xC000 + i as u64 * 16, "Ref {} should have correct value", i);
    }
    for r in refs {
        reg.release_ref(r);
    }
}
