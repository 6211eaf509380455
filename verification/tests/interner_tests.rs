use luars::gc::gc_object::StringPtr;
use luars::gc::string_interner::{InternLookup, StringInterner, INITIAL_SIZE};

fn intern_or_create(t: &mut StringInterner, s: &str, addr: u64) -> u64 {
    match t.intern(s) {
        InternLookup::Found(p) => p.as_u64(),
        InternLookup::Missing(h) => {
            t.create_short_string(s.to_string(), h, StringPtr::new(addr));
            addr
        }
        InternLookup::Long => panic!("short string expected"),
    }
}

#[test]
fn interning_finds_strings_again() {
    let mut t = StringInterner::new();
    assert_eq!(t.stats(), (0, INITIAL_SIZE));
    assert_eq!(intern_or_create(&mut t, "hello", 0x100), 0x100);
    assert_eq!(intern_or_create(&mut t, "world", 0x200), 0x200);
    assert_eq!(intern_or_create(&mut t, "hello", 0x300), 0x100);
    assert_eq!(t.stats(), (2, INITIAL_SIZE));
    assert!(matches!(t.intern_owned(&"world".to_string()), InternLookup::Found(p) if p.as_u64() == 0x200));
    let long = "x".repeat(41);
    assert!(matches!(t.intern(&long), InternLookup::Long));
    assert!(!matches!(t.intern(&"x".repeat(40)), InternLookup::Long));
}

#[test]
fn interning_grows_and_removes() {
    let mut t = StringInterner::default();
    for i in 0..300u64 {
        intern_or_create(&mut t, &format!("s{}", i), 0x1000 + i * 16);
    }
    let (n, size) = t.stats();
    assert_eq!(n, 300);
    assert_eq!(size, 512);
    for i in 0..300u64 {
        assert_eq!(intern_or_create(&mut t, &format!("s{}", i), 1), 0x1000 + i * 16);
    }
    t.resize(1000);
    assert_eq!(t.stats(), (300, 1024));
    for i in 0..300u64 {
        assert_eq!(intern_or_create(&mut t, &format!("s{}", i), 1), 0x1000 + i * 16);
    }
    t.resize(0);
    assert_eq!(t.stats(), (300, 1));
    assert_eq!(intern_or_create(&mut t, "s9", 1), 0x1000 + 9 * 16);
}

#[test]
fn removing_dead_strings() {
    let mut t = StringInterner::new();
    let h = match t.intern("dead") {
        InternLookup::Missing(h) => h,
        _ => panic!(),
    };
    t.create_short_string("dead".to_string(), h, StringPtr::new(0x500));
    assert_eq!(t.stats().0, 1);
    t.remove_dead_intern(StringPtr::new(0x600), h);
    assert_eq!(t.stats().0, 1);
    t.remove_dead_intern(StringPtr::new(0x500), h);
    assert_eq!(t.stats().0, 0);
    assert!(matches!(t.intern("dead"), InternLookup::Missing(_)));
}

#[test]
fn shrinking_when_sparse() {
    let mut t = StringInterner::new();
    t.resize(1024);
    assert_eq!(t.stats(), (0, 1024));
    t.check_shrink();
    assert_eq!(t.stats(), (0, 512));
    t.check_shrink();
    t.check_shrink();
    assert_eq!(t.stats(), (0, 128));
    t.check_shrink();
    assert_eq!(t.stats(), (0, 128));
}

#[test]
fn lookup_searches_the_bucket_of_a_given_hash() {
    let mut t = StringInterner::new();
    t.create_short_string("abc".to_string(), 5, StringPtr::new(0x700));
    t.create_short_string("abc".to_string(), 5 + 128, StringPtr::new(0x800));
    // the first entry of bucket 5 with that text
    assert!(matches!(t.lookup("abc", 5), InternLookup::Found(p) if p.as_u64() == 0x700));
    assert!(matches!(t.lookup("abc", 6), InternLookup::Missing(6)));
    assert!(matches!(t.lookup("abd", 5), InternLookup::Missing(5)));
}
