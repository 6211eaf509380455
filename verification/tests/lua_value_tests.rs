use luars::gc::gc_object::{BinaryPtr, TablePtr};
use luars::lua_value::lua_value::{
    compute_long_string_hash, f64_bits_equal, f64_bits_to_i64, lua_float_eq_int, makevariant,
    mix_float_hash, novariant, withvariant, LuaValue, LuaValueKind, LUA_TNUMBER, LUA_VFALSE,
    LUA_VNUMFLT, LUA_VNUMINT, LUA_VTRUE,
};
use luars::lua_value::{LuaStrRepr, LuaString};

fn float(f: f64) -> LuaValue {
    LuaValue::float_from_bits(f.to_bits())
}

#[test]
fn test_nil() {
    let v = LuaValue::nil();
    assert!(v.ttisnil());
    assert!(v.ttisstrictnil());
    assert!(v.is_falsy());
    assert_eq!(v.lua_type_name(), "nil");
}

#[test]
fn test_empty() {
    let v = LuaValue::empty();
    assert!(v.ttisnil());
    assert!(v.ttisempty());
    assert!(!v.ttisstrictnil());
}

#[test]
fn test_boolean() {
    let t = LuaValue::boolean(true);
    let f = LuaValue::boolean(false);

    assert!(t.ttisboolean());
    assert!(f.ttisboolean());
    assert!(t.ttistrue());
    assert!(f.ttisfalse());
    assert!(t.bvalue());
    assert!(!f.bvalue());
    assert!(t.is_truthy());
    assert!(f.is_falsy());
}

#[test]
fn test_integer() {
    let v = LuaValue::integer(42);
    assert!(v.ttisnumber());
    assert!(v.ttisinteger());
    assert_eq!(v.ivalue(), 42);

    let neg = LuaValue::integer(-100);
    assert_eq!(neg.ivalue(), -100);
}

#[test]
fn test_float() {
    let v = float(3.15);
    assert!(v.ttisnumber());
    assert!(v.ttisfloat());
    assert!((f64::from_bits(v.fltvalue_bits()) - 3.15).abs() < f64::EPSILON);
}

#[test]
fn test_equality() {
    assert!(LuaValue::nil().raw_equals(&LuaValue::nil(), &[], &[]));
    assert!(LuaValue::integer(42).raw_equals(&LuaValue::integer(42), &[], &[]));
    assert!(!LuaValue::integer(42).raw_equals(&LuaValue::integer(43), &[], &[]));
}

#[test]
fn test_type_tags() {
    assert_eq!(novariant(LUA_VNUMINT), LUA_TNUMBER);
    assert_eq!(novariant(LUA_VNUMFLT), LUA_TNUMBER);
    assert_eq!(withvariant(LUA_VNUMINT), LUA_VNUMINT);
    assert_eq!(makevariant(LUA_TNUMBER, 0), LUA_VNUMINT);
    assert_eq!(makevariant(LUA_TNUMBER, 1), LUA_VNUMFLT);
}

#[test]
fn test_collectable_bit() {
    let nil = LuaValue::nil();
    let int = LuaValue::integer(42);
    assert!(!nil.iscollectable());
    assert!(!int.iscollectable());
}

#[test]
fn test_integer_float_distinction() {
    let int_val = LuaValue::integer(42);
    let float_val = float(42.0);

    assert!(int_val.is_integer());
    assert!(!int_val.is_float());
    assert!(!float_val.is_integer());
    assert!(float_val.is_float());

    assert!(int_val.is_number());
    assert!(float_val.is_number());
}

#[test]
fn test_integer_float_conversion() {
    let float_val = float(42.5);
    assert_eq!(float_val.as_integer(), None);

    let exact_float = float(42.0);
    assert_eq!(exact_float.as_integer(), Some(42));
}

#[test]
fn boolean_tags() {
    assert_eq!(LuaValue::boolean(true).tt(), LUA_VTRUE);
    assert_eq!(LuaValue::boolean(false).tt(), LUA_VFALSE);
    assert_eq!(LuaValue::integer(7).kind(), LuaValueKind::Integer);
    assert_eq!(float(0.5).kind(), LuaValueKind::Float);
}

#[test]
fn float_to_integer_edges() {
    assert_eq!(f64_bits_to_i64(0.0f64.to_bits()), Some(0));
    assert_eq!(f64_bits_to_i64((-0.0f64).to_bits()), Some(0));
    assert_eq!(f64_bits_to_i64((-3.0f64).to_bits()), Some(-3));
    assert_eq!(f64_bits_to_i64(1e15f64.to_bits()), Some(1_000_000_000_000_000));
    assert_eq!(f64_bits_to_i64((-9223372036854775808.0f64).to_bits()), Some(i64::MIN));
    assert_eq!(f64_bits_to_i64(9223372036854775808.0f64.to_bits()), None);
    assert_eq!(f64_bits_to_i64(f64::NAN.to_bits()), None);
    assert_eq!(f64_bits_to_i64(f64::INFINITY.to_bits()), None);
    assert_eq!(f64_bits_to_i64(f64::MIN_POSITIVE.to_bits()), None);
    assert_eq!(f64_bits_to_i64(0.5f64.to_bits()), None);
    assert_eq!(f64_bits_to_i64(4503599627370497.0f64.to_bits()), Some(4503599627370497));
}

#[test]
fn float_int_equality() {
    assert!(lua_float_eq_int(1.0f64.to_bits(), 1));
    assert!(!lua_float_eq_int(1.5f64.to_bits(), 1));
    assert!(!lua_float_eq_int(f64::NAN.to_bits(), 0));
    assert!(lua_float_eq_int((-0.0f64).to_bits(), 0));
    // Mixed raw equality goes through the same test.
    assert!(LuaValue::integer(1).raw_equals(&float(1.0), &[], &[]));
    assert!(float(2.0).raw_equals(&LuaValue::integer(2), &[], &[]));
    assert!(!float(2.5).raw_equals(&LuaValue::integer(2), &[], &[]));
}

#[test]
fn float_equality_by_bits() {
    assert!(f64_bits_equal(0.0f64.to_bits(), (-0.0f64).to_bits()));
    assert!(!f64_bits_equal(f64::NAN.to_bits(), f64::NAN.to_bits()));
    assert!(f64_bits_equal(2.5f64.to_bits(), 2.5f64.to_bits()));
    assert!(!f64_bits_equal(2.5f64.to_bits(), 2.25f64.to_bits()));
    assert!(!float(f64::NAN).raw_equals(&float(f64::NAN), &[], &[]));
    assert!(float(0.0).raw_equals(&float(-0.0), &[], &[]));
}

#[test]
fn long_string_hash_values() {
    // Seed for the empty input, mixed with nothing.
    assert_eq!(compute_long_string_hash(b""), 0x5bd1e995);
    let h = compute_long_string_hash(b"a");
    let seed: u64 = 1 ^ 0x5bd1e995;
    let expect = seed ^ ((seed << 5).wrapping_add(seed >> 2).wrapping_add(b'a' as u64));
    assert_eq!(h, expect);
    assert_ne!(compute_long_string_hash(b"ab"), compute_long_string_hash(b"ba"));
}

#[test]
fn float_hash_mixing() {
    assert_eq!(mix_float_hash(0), 0);
    let x: u64 = 1.5f64.to_bits();
    let mut h = x;
    h ^= h >> 30;
    h = h.wrapping_mul(0xbf58476d1ce4e5b9);
    h ^= h >> 27;
    h = h.wrapping_mul(0x94d049bb133111eb);
    h ^= h >> 31;
    assert_eq!(mix_float_hash(x), h);
    assert_ne!(mix_float_hash(x), x);
}

#[test]
fn string_hash_is_cached() {
    let text = "a long string that is well over the short string limit of forty bytes";
    let mut s = LuaString::new(LuaStrRepr::Owned(text.to_string()), 0);
    let h = s.hash_or_compute();
    assert_eq!(h, compute_long_string_hash(text.as_bytes()));
    assert_eq!(s.hash, h);
    assert_eq!(s.hash_or_compute(), h);
    let mut pre = LuaString::new(LuaStrRepr::Owned(text.to_string()), 77);
    assert_eq!(pre.hash_or_compute(), 77);
}

#[test]
fn value_hashes() {
    let mut dummy = LuaString::new(LuaStrRepr::Owned(String::new()), 5);
    assert_eq!(LuaValue::integer(-1).hash_value(&mut dummy), u64::MAX);
    assert_eq!(float(1.5).hash_value(&mut dummy), mix_float_hash(1.5f64.to_bits()));
    assert_eq!(dummy.hash, 5);
}

#[test]
fn display_texts() {
    assert_eq!(LuaValue::nil().display_bytes(b""), b"nil".to_vec());
    assert_eq!(LuaValue::boolean(true).display_bytes(b""), b"true".to_vec());
    assert_eq!(LuaValue::boolean(false).display_bytes(b""), b"false".to_vec());
    assert_eq!(LuaValue::integer(-1203).display_bytes(b""), b"-1203".to_vec());
    assert_eq!(LuaValue::integer(i64::MIN).display_bytes(b""), i64::MIN.to_string().into_bytes());
    assert_eq!(LuaValue::integer(0).display_bytes(b""), b"0".to_vec());
    assert_eq!(
        LuaValue::table(TablePtr::new(0xabc123)).display_bytes(b""),
        format!("table: 0x{:x}", 0xabc123).into_bytes()
    );
    assert_eq!(
        LuaValue::binary(BinaryPtr::new(0x10)).display_bytes(&[0x0f, 0xa0, 7]),
        b"binary(len=3, [0f a0 07])".to_vec()
    );
    assert_eq!(float(2.5).display_bytes(b"2.5"), b"2.5".to_vec());
}

#[test]
fn mixing_is_one_to_one() {
    let xs = [0u64, 1, 2, 0x3ff0000000000000, u64::MAX, 0x8000000000000000];
    for i in 0..xs.len() {
        for j in 0..xs.len() {
            assert_eq!(mix_float_hash(xs[i]) == mix_float_hash(xs[j]), i == j);
        }
    }
}

#[test]
fn test_size() {
    assert_eq!(std::mem::size_of::<luars::lua_value::lua_value::LuaValue>(), 16);
}
