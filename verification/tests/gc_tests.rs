use luars::gc::gc_kind::GcObjectKind;
use luars::gc::gc_object::{
    Gc, GcHeader, GcList, GcObjectOwner, GcObjectPtr, StringPtr, TablePtr, G_NEW, G_OLD,
    G_SURVIVAL,
};
use luars::lua_value::{LuaStrRepr, LuaString};

fn string_object(text: &str, white: u8) -> GcObjectOwner {
    let s = LuaString::new(LuaStrRepr::Owned(text.to_string()), 1);
    GcObjectOwner::String(Box::new(Gc::new(s, white, text.len() as u32)))
}

#[test]
fn header_colors() {
    let mut h = GcHeader::with_white(0);
    assert!(h.is_white());
    assert!(h.is_current_white(0));
    assert!(!h.is_current_white(1));
    assert!(h.is_dead(0));
    assert!(!h.is_dead(1));
    assert_eq!(h.age(), G_NEW);
    h.make_gray();
    assert!(h.is_gray());
    h.make_black();
    assert!(h.is_black());
    assert!(h.is_marked());
    h.make_white(1);
    assert!(h.is_current_white(1));
    h.change_white();
    assert!(h.is_current_white(0));
    assert_eq!(GcHeader::otherwhite(0), 1);
    h.set_age(G_SURVIVAL);
    assert_eq!(h.age(), G_SURVIVAL);
    assert!(h.is_current_white(0));
    h.set_finalized();
    assert!(h.to_finalize());
    h.clear_finalized();
    assert!(!h.to_finalize());
    h.set_index(1234);
    assert_eq!(h.index(), 1234);
    assert_eq!(h.age(), G_SURVIVAL);
}

#[test]
fn fixed_objects_stay_gray_and_old() {
    let mut h = GcHeader::with_white(1);
    h.set_index(7);
    let p = GcObjectPtr::from(TablePtr::new(0x4000));
    p.fix_gc_object(&mut h);
    assert!(h.is_gray());
    assert_eq!(h.age(), G_OLD);
    assert!(h.is_old());
    assert_eq!(h.index(), 7);
}

#[test]
fn fixing_a_null_pointer_does_nothing() {
    let mut h = GcHeader::with_white(1);
    h.set_index(7);
    let p = GcObjectPtr::from(TablePtr::null());
    p.fix_gc_object(&mut h);
    assert!(!h.is_gray());
    assert!(h.is_white());
    assert_eq!(h.age(), GcHeader::with_white(1).age());
    assert_eq!(h.index(), 7);
}

#[test]
fn gc_list_keeps_indices() {
    let mut list = GcList::new();
    list.add(string_object("a", 0));
    list.add(string_object("b", 0));
    list.add(string_object("c", 1));
    assert_eq!(list.len(), 3);
    for i in 0..3 {
        assert_eq!(list.get_owner(i).header().index(), i);
    }
    let removed = list.remove(0);
    assert_eq!(removed.kind(), GcObjectKind::String);
    assert_eq!(list.len(), 2);
    // The last object moved into the hole and knows it.
    match list.get_owner(0) {
        GcObjectOwner::String(s) => assert_eq!(s.data.as_str(), "c"),
        _ => panic!("expected a string"),
    }
    assert_eq!(list.get_owner(0).header().index(), 0);
    assert_eq!(list.get_owner(1).header().index(), 1);
    assert!(list.get(2).is_none());
    let last = list.remove(1);
    assert_eq!(last.size(), 1);
    assert_eq!(list.len(), 1);

    let taken = list.take_all();
    assert!(list.is_empty());
    assert_eq!(taken.len(), 1);
    let mut other = GcList::with_capacity(4);
    other.add(string_object("z", 0));
    other.add_all(taken);
    other.add_all(vec![string_object("q", 0), string_object("r", 0)]);
    assert_eq!(other.len(), 4);
    for i in 0..4 {
        assert_eq!(other.get_owner(i).header().index(), i);
    }
    other.clear();
    assert_eq!(other.len(), 0);
}

#[test]
fn pointers() {
    let p = StringPtr::new(0x1234);
    assert_eq!(p.as_u64(), 0x1234);
    assert!(!p.is_null());
    assert!(StringPtr::null().is_null());
    let g = GcObjectPtr::from(p);
    assert!(g.is_string());
    assert!(!g.is_table());
    assert_eq!(g.kind(), GcObjectKind::String);
    assert_eq!(g.as_string_ptr().as_u64(), 0x1234);
}
