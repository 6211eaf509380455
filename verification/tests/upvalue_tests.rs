use luars::lua_value::lua_value::LuaValue;
use luars::lua_value::{LuaStrRepr, LuaString, LuaUpvalue};

#[test]
fn open_upvalue_reads_and_writes_its_slot() {
    let mut stack = vec![LuaValue::integer(1), LuaValue::integer(2), LuaValue::integer(3)];
    let mut uv = LuaUpvalue::new_open(1);
    assert!(uv.is_open());
    assert_eq!(uv.get_value(&stack).ivalue(), 2);
    uv.set_value(&mut stack, LuaValue::integer(20));
    assert_eq!(stack[1].ivalue(), 20);
    assert_eq!(uv.get_value(&stack).ivalue(), 20);
    assert_eq!(stack[0].ivalue(), 1);
    uv.close(stack[1]);
    assert!(!uv.is_open());
    uv.set_value(&mut stack, LuaValue::integer(99));
    assert_eq!(uv.get_value(&stack).ivalue(), 99);
    assert_eq!(stack[1].ivalue(), 20);
    assert_eq!(uv.get_closed_value().map(|v| v.ivalue()), Some(99));
}

#[test]
fn closed_upvalue_after_fix() {
    let mut uv = LuaUpvalue::new_closed(LuaValue::integer(5));
    uv.fix_closed_ptr();
    assert!(!uv.is_open());
    assert_eq!(uv.get_value(&[]).ivalue(), 5);
    assert!(LuaUpvalue::is_valid_tt(0x03));
    assert!(!LuaUpvalue::is_valid_tt(0x7F));
    assert!(!LuaUpvalue::is_valid_tt(0x76));
}

#[test]
fn string_equality() {
    let a = LuaString::new(LuaStrRepr::Owned("hello".to_string()), 3);
    let b = LuaString::new(LuaStrRepr::Owned("hello".to_string()), 3);
    let c = LuaString::new(LuaStrRepr::Owned("hello".to_string()), 4);
    let d = LuaString::new(LuaStrRepr::Owned("hellp".to_string()), 3);
    assert!(a == b);
    assert!(a != c);
    assert!(a != d);
    assert!(a.is_short());
    assert!(!a.is_long());
}

#[test]
fn smol_strings() {
    let s = LuaStrRepr::Smol(smol_str::SmolStr::new("héllo"));
    assert_eq!(s.as_str(), "héllo");
    assert_eq!(s.len(), 6);
    assert_eq!(s.as_bytes(), "héllo".as_bytes());
    let t = LuaStrRepr::Owned("héllo".to_string());
    assert!(s == t);
    let st = LuaString::new(s, 9);
    assert_eq!(st.as_str(), "héllo");
    assert!(st.is_short());
}
