use core::marker::PhantomData;
use vstd::prelude::*;

use crate::gc::gc_kind::{kind_tag, GcObjectKind};
use crate::lua_value::{
    CClosureFunction, LuaFunction, LuaString, LuaUpvalue, LuaUserdata, RClosureFunction,
};
use crate::lua_value::lua_table::LuaTable;
use crate::lua_vm::lua_state::LuaState;

verus! {

// ============ Object ages (bits 0-2 of the mark byte) ============
/// Created in the current cycle.
pub const G_NEW: u8 = 0;
/// Created in the previous cycle (survived one minor collection).
pub const G_SURVIVAL: u8 = 1;
/// Marked old by a forward barrier in this cycle.
pub const G_OLD0: u8 = 2;
/// First full cycle as old.
pub const G_OLD1: u8 = 3;
/// Really old object (not visited in minor collections).
pub const G_OLD: u8 = 4;
/// Old object touched in this cycle.
pub const G_TOUCHED1: u8 = 5;
/// Old object touched in the previous cycle.
pub const G_TOUCHED2: u8 = 6;

// ============ Color bit positions in the mark byte ============
pub const WHITE0BIT: u8 = 3;
pub const WHITE1BIT: u8 = 4;
pub const BLACKBIT: u8 = 5;
pub const FINALIZEDBIT: u8 = 6;

// ============ Masks ============
/// Both white bits: `(1 << WHITE0BIT) | (1 << WHITE1BIT)`.
pub const WHITEBITS: u8 = 0x18;
/// Age bits 0-2.
pub const AGEBITS: u8 = 0x07;
/// All color bits: `(1 << BLACKBIT) | WHITEBITS`.
pub const MASKCOLORS: u8 = 0x38;
/// Color and age bits: `MASKCOLORS | AGEBITS`.
pub const MASKGCBITS: u8 = 0x3F;

/// The black bit: `1 << BLACKBIT`.
pub const BLACK_MASK: u8 = 0x20;
/// The finalization bit: `1 << FINALIZEDBIT`.
pub const FINALIZED_MASK: u8 = 0x40;

/// Largest index a header can record (24 bits).
pub const INDEX_MAX: u32 = 0xFF_FFFF;

/// Abstract content of a header: the mark byte, the position in its object list, and the
/// allocation-time size estimate.
pub struct HeaderView {
    pub marked: u8,
    pub index: u32,
    pub size: u32,
}

/// The mark bit of white number `w` (0 or 1): `1 << (WHITE0BIT + w)`.
fn white_bit(w: u8) -> (r: u8)
    requires
        w <= 1,
    ensures
        r == (if w == 0 { 8u8 } else { 16u8 }),
{
    assert(w <= 1 ==> 1u8 << (3u8 + w) == (if w == 0 { 8u8 } else { 16u8 })) by (bit_vector);
    1u8 << (WHITE0BIT + w)
}

/// Header embedded in every collectable object.
///
/// `packed` holds the mark byte in bits 0-7 and the list index in bits 8-31:
/// bits 0-2 of the mark byte are the age, bit 3 and bit 4 the two whites, bit 5 black and
/// bit 6 the finalization flag. An object is gray when it is neither white nor black.
#[derive(Clone, Copy, PartialEq, Eq, Structural)]
pub struct GcHeader {
    packed: u32,
    pub size: u32,
}

impl View for GcHeader {
    type V = HeaderView;

    closed spec fn view(&self) -> HeaderView {
        HeaderView { marked: (self.packed & 0xFF) as u8, index: self.packed >> 8, size: self.size }
    }
}

// ============ Predicates on a mark byte ============
pub open spec fn age_of(m: u8) -> u8 {
    m & AGEBITS
}

pub open spec fn white_of(m: u8) -> bool {
    m & WHITEBITS != 0
}

/// The mark byte carries the white bit of the given white (0 or 1).
pub open spec fn has_white(m: u8, w: int) -> bool {
    if w == 0 {
        m & 0x08 != 0
    } else {
        m & 0x10 != 0
    }
}

pub open spec fn black_of(m: u8) -> bool {
    m & 0x20 != 0
}

pub open spec fn gray_of(m: u8) -> bool {
    m & MASKCOLORS == 0
}

pub open spec fn finalized_of(m: u8) -> bool {
    m & 0x40 != 0
}

/// The bits of the mark byte that are neither color nor age (finalization and reserved bit).
pub open spec fn flags_of(m: u8) -> u8 {
    m & 0xC0
}

/// The mark byte of an object that was just made white with the given white:
/// age and flags kept, only the given white bit set among the colors.
pub open spec fn whitened(m: u8, w: int) -> u8 {
    (m & !MASKCOLORS) | (if w == 0 { 0x08u8 } else { 0x10u8 })
}

/// The mark byte with its age replaced.
pub open spec fn with_age(m: u8, age: u8) -> u8 {
    (m & !AGEBITS) | (age & AGEBITS)
}

impl GcHeader {
    pub open spec fn marked_spec(&self) -> u8 {
        self@.marked
    }

    // ============ Raw field access ============
    /// The mark byte (color, age and finalization bits).
    pub fn marked(&self) -> (r: u8)
        ensures
            r == self@.marked,
    {
        (self.packed & 0xFF) as u8
    }

    fn set_marked_bits(&mut self, m: u8)
        ensures
            final(self)@ == (HeaderView { marked: m, ..old(self)@ }),
    {
        let p = self.packed;
        let np = (p & !0xFFu32) | (m as u32);
        assert((np & 0xFF) as u8 == m && np >> 8 == p >> 8) by (bit_vector)
            requires
                np == (p & !0xFFu32) | (m as u32),
        ;
        self.packed = np;
    }

    /// Position of the object in its object list.
    pub fn index(&self) -> (r: usize)
        ensures
            r == self@.index,
    {
        let p = self.packed;
        assert(p >> 8 <= INDEX_MAX) by (bit_vector);
        (p >> 8) as usize
    }

    /// Record the position of the object in its object list; the mark byte and size are kept.
    pub fn set_index(&mut self, idx: usize)
        requires
            idx <= INDEX_MAX,
        ensures
            final(self)@ == (HeaderView { index: idx as u32, ..old(self)@ }),
    {
        let p = self.packed;
        let i = idx as u32;
        let np = (p & 0xFF) | (i << 8);
        assert((np & 0xFF) == (p & 0xFF) && np >> 8 == i) by (bit_vector)
            requires
                np == (p & 0xFF) | (i << 8),
                i <= 0xFF_FFFF,
        ;
        self.packed = np;
    }

    /// A new header of age `G_NEW` carrying the given white, with index 0 and size 0.
    pub fn with_white(current_white: u8) -> (r: Self)
        requires
            current_white <= 1,
        ensures
            r@.marked == (if current_white == 0 { 0x08u8 } else { 0x10u8 }),
            r@.index == 0,
            r@.size == 0,
            white_of(r@.marked),
            has_white(r@.marked, current_white as int),
            !has_white(r@.marked, 1 - current_white),
            !black_of(r@.marked),
            age_of(r@.marked) == G_NEW,
            !finalized_of(r@.marked),
    {
        let bit: u8 = white_bit(current_white);
        let packed = (bit | G_NEW) as u32;
        let r = GcHeader { packed, size: 0 };
        assert(r@.marked == bit && r@.index == 0) by {
            assert((packed & 0xFF) as u8 == bit && packed >> 8 == 0) by (bit_vector)
                requires
                    packed == (bit | 0u8) as u32,
            ;
        }
        assert(bit == 8 ==> white_of(bit) && has_white(bit, 0) && !has_white(bit, 1) && !black_of(
            bit,
        ) && age_of(bit) == 0 && !finalized_of(bit)) by (bit_vector);
        assert(bit == 16 ==> white_of(bit) && has_white(bit, 1) && !has_white(bit, 0)
            && !black_of(bit) && age_of(bit) == 0 && !finalized_of(bit)) by (bit_vector);
        r
    }

    // ============ Ages (generational collection) ============
    /// The age of the object (bits 0-2).
    pub fn age(&self) -> (r: u8)
        ensures
            r == age_of(self@.marked),
            r <= 7,
    {
        let m = self.marked();
        assert(m & AGEBITS <= 7) by (bit_vector);
        m & AGEBITS
    }

    /// Set the age; colors, flags, index and size are kept.
    pub fn set_age(&mut self, age: u8)
        requires
            age <= G_TOUCHED2,
        ensures
            final(self)@ == (HeaderView { marked: with_age(old(self)@.marked, age), ..old(self)@ }),
            age_of(final(self)@.marked) == age,
            old(self)@.marked & MASKCOLORS == final(self)@.marked & MASKCOLORS,
            flags_of(old(self)@.marked) == flags_of(final(self)@.marked),
    {
        let old_m = self.marked();
        let m = (old_m & !AGEBITS) | (age & AGEBITS);
        assert(m & 0x07 == age && old_m & 0x38 == m & 0x38 && old_m & 0xC0 == m & 0xC0)
            by (bit_vector)
            requires
                m == (old_m & !0x07u8) | (age & 0x07u8),
                age <= 6,
        ;
        self.set_marked_bits(m);
    }

    /// The object is old: its age is above `G_SURVIVAL`.
    pub fn is_old(&self) -> (r: bool)
        ensures
            r == (age_of(self@.marked) > G_SURVIVAL),
    {
        self.age() > G_SURVIVAL
    }

    // ============ Colors ============
    pub fn is_white(&self) -> (r: bool)
        ensures
            r == white_of(self@.marked),
    {
        (self.marked() & WHITEBITS) != 0
    }

    /// The object carries the given white (0 or 1).
    pub fn is_current_white(&self, current_white: u8) -> (r: bool)
        requires
            current_white <= 1,
        ensures
            r == has_white(self@.marked, current_white as int),
    {
        let m = self.marked();
        let bit: u8 = white_bit(current_white);
        (m & bit) != 0
    }

    pub fn is_black(&self) -> (r: bool)
        ensures
            r == black_of(self@.marked),
    {
        (self.marked() & BLACK_MASK) != 0
    }

    /// Gray: neither white nor black.
    pub fn is_gray(&self) -> (r: bool)
        ensures
            r == gray_of(self@.marked),
            r == (!white_of(self@.marked) && !black_of(self@.marked)),
    {
        let m = self.marked();
        assert((m & 0x38 == 0) == (m & 0x18 == 0 && m & 0x20 == 0)) by (bit_vector);
        (m & MASKCOLORS) == 0
    }

    // ============ Finalization flag ============
    pub fn to_finalize(&self) -> (r: bool)
        ensures
            r == finalized_of(self@.marked),
    {
        (self.marked() & FINALIZED_MASK) != 0
    }

    /// Set the finalization flag; everything else is kept.
    pub fn set_finalized(&mut self)
        ensures
            final(self)@ == (HeaderView { marked: old(self)@.marked | 0x40, ..old(self)@ }),
            finalized_of(final(self)@.marked),
            age_of(final(self)@.marked) == age_of(old(self)@.marked),
            final(self)@.marked & MASKCOLORS == old(self)@.marked & MASKCOLORS,
    {
        let m = self.marked();
        assert((m | 0x40) & 0x40 != 0 && (m | 0x40) & 0x07 == m & 0x07 && (m | 0x40) & 0x38 == m
            & 0x38) by (bit_vector);
        self.set_marked_bits(m | FINALIZED_MASK);
    }

    /// Clear the finalization flag; everything else is kept.
    pub fn clear_finalized(&mut self)
        ensures
            final(self)@ == (HeaderView { marked: old(self)@.marked & !0x40u8, ..old(self)@ }),
            !finalized_of(final(self)@.marked),
            age_of(final(self)@.marked) == age_of(old(self)@.marked),
            final(self)@.marked & MASKCOLORS == old(self)@.marked & MASKCOLORS,
    {
        let m = self.marked();
        assert((m & !0x40u8) & 0x40 == 0 && (m & !0x40u8) & 0x07 == m & 0x07 && (m & !0x40u8)
            & 0x38 == m & 0x38) by (bit_vector);
        self.set_marked_bits(m & !FINALIZED_MASK);
    }

    // ============ Color transitions ============
    /// Make the object white with the given white: the other white and black are cleared,
    /// age and flags kept.
    pub fn make_white(&mut self, current_white: u8)
        requires
            current_white <= 1,
        ensures
            final(self)@ == (HeaderView {
                marked: whitened(old(self)@.marked, current_white as int),
                ..old(self)@
            }),
            white_of(final(self)@.marked),
            has_white(final(self)@.marked, current_white as int),
            !has_white(final(self)@.marked, 1 - current_white),
            !black_of(final(self)@.marked),
            age_of(final(self)@.marked) == age_of(old(self)@.marked),
            flags_of(final(self)@.marked) == flags_of(old(self)@.marked),
    {
        let old_m = self.marked();
        let bit: u8 = white_bit(current_white);
        let m = (old_m & !MASKCOLORS) | bit;
        assert(bit == 8 ==> (m & 0x18 != 0 && m & 0x08 != 0 && m & 0x10 == 0 && m & 0x20 == 0 && m
            & 0x07 == old_m & 0x07 && m & 0xC0 == old_m & 0xC0)) by (bit_vector)
            requires
                m == (old_m & !0x38u8) | bit,
        ;
        assert(bit == 16 ==> (m & 0x18 != 0 && m & 0x10 != 0 && m & 0x08 == 0 && m & 0x20 == 0
            && m & 0x07 == old_m & 0x07 && m & 0xC0 == old_m & 0xC0)) by (bit_vector)
            requires
                m == (old_m & !0x38u8) | bit,
        ;
        self.set_marked_bits(m);
    }

    /// Make the object gray: all color bits cleared, age and flags kept.
    pub fn make_gray(&mut self)
        ensures
            final(self)@ == (HeaderView { marked: old(self)@.marked & !MASKCOLORS, ..old(self)@ }),
            gray_of(final(self)@.marked),
            !white_of(final(self)@.marked),
            !black_of(final(self)@.marked),
            age_of(final(self)@.marked) == age_of(old(self)@.marked),
            flags_of(final(self)@.marked) == flags_of(old(self)@.marked),
    {
        let old_m = self.marked();
        let m = old_m & !MASKCOLORS;
        assert(m & 0x38 == 0 && m & 0x18 == 0 && m & 0x20 == 0 && m & 0x07 == old_m & 0x07 && m
            & 0xC0 == old_m & 0xC0) by (bit_vector)
            requires
                m == old_m & !0x38u8,
        ;
        self.set_marked_bits(m);
    }

    /// Make the object black: white bits cleared, black set, age and flags kept.
    pub fn make_black(&mut self)
        ensures
            final(self)@ == (HeaderView {
                marked: (old(self)@.marked & !WHITEBITS) | 0x20,
                ..old(self)@
            }),
            black_of(final(self)@.marked),
            !white_of(final(self)@.marked),
            !gray_of(final(self)@.marked),
            age_of(final(self)@.marked) == age_of(old(self)@.marked),
            flags_of(final(self)@.marked) == flags_of(old(self)@.marked),
    {
        let old_m = self.marked();
        let m = (old_m & !WHITEBITS) | BLACK_MASK;
        assert(m & 0x20 != 0 && m & 0x18 == 0 && m & 0x38 != 0 && m & 0x07 == old_m & 0x07 && m
            & 0xC0 == old_m & 0xC0) by (bit_vector)
            requires
                m == (old_m & !0x18u8) | 0x20u8,
        ;
        self.set_marked_bits(m);
    }

    /// Turn a non-white object black.
    pub fn nw2black(&mut self)
        requires
            !white_of(old(self)@.marked),
        ensures
            final(self)@ == (HeaderView { marked: old(self)@.marked | 0x20, ..old(self)@ }),
            black_of(final(self)@.marked),
            !white_of(final(self)@.marked),
            age_of(final(self)@.marked) == age_of(old(self)@.marked),
            flags_of(final(self)@.marked) == flags_of(old(self)@.marked),
    {
        let old_m = self.marked();
        let m = old_m | BLACK_MASK;
        assert(m & 0x20 != 0 && m & 0x18 == 0 && m & 0x07 == old_m & 0x07 && m & 0xC0 == old_m
            & 0xC0) by (bit_vector)
            requires
                m == old_m | 0x20u8,
                old_m & 0x18 == 0,
        ;
        self.set_marked_bits(m);
    }

    // ============ Death ============
    /// Dead: the object carries the other white (the white of the previous cycle).
    pub fn is_dead(&self, other_white: u8) -> (r: bool)
        requires
            other_white <= 1,
        ensures
            r == has_white(self@.marked, other_white as int),
    {
        let m = self.marked();
        let bit: u8 = white_bit(other_white);
        (m & bit) != 0
    }

    /// The other white.
    pub fn otherwhite(current_white: u8) -> (r: u8)
        ensures
            r == current_white ^ 1,
            current_white <= 1 ==> r == 1 - current_white,
    {
        assert(current_white <= 1 ==> current_white ^ 1 == 1 - current_white) by (bit_vector);
        current_white ^ 1
    }

    /// Swap the two white bits; everything else is kept.
    pub fn change_white(&mut self)
        ensures
            final(self)@ == (HeaderView { marked: old(self)@.marked ^ WHITEBITS, ..old(self)@ }),
            has_white(final(self)@.marked, 0) == !has_white(old(self)@.marked, 0),
            has_white(final(self)@.marked, 1) == !has_white(old(self)@.marked, 1),
            black_of(final(self)@.marked) == black_of(old(self)@.marked),
            age_of(final(self)@.marked) == age_of(old(self)@.marked),
            flags_of(final(self)@.marked) == flags_of(old(self)@.marked),
    {
        let old_m = self.marked();
        let m = old_m ^ WHITEBITS;
        assert((m & 0x08 != 0) == !(old_m & 0x08 != 0) && (m & 0x10 != 0) == !(old_m & 0x10 != 0) && (m
            & 0x20 != 0) == (old_m & 0x20 != 0) && m & 0x07 == old_m & 0x07 && m & 0xC0 == old_m
            & 0xC0) by (bit_vector)
            requires
                m == old_m ^ 0x18u8,
        ;
        self.set_marked_bits(m);
    }

    // ============ Age transitions ============
    pub fn make_old0(&mut self)
        ensures
            final(self)@ == (HeaderView { marked: with_age(old(self)@.marked, G_OLD0), ..old(self)@ }),
            age_of(final(self)@.marked) == G_OLD0,
    {
        self.set_age(G_OLD0);
    }

    pub fn make_old1(&mut self)
        ensures
            final(self)@ == (HeaderView { marked: with_age(old(self)@.marked, G_OLD1), ..old(self)@ }),
            age_of(final(self)@.marked) == G_OLD1,
    {
        self.set_age(G_OLD1);
    }

    pub fn make_old(&mut self)
        ensures
            final(self)@ == (HeaderView { marked: with_age(old(self)@.marked, G_OLD), ..old(self)@ }),
            age_of(final(self)@.marked) == G_OLD,
    {
        self.set_age(G_OLD);
    }

    pub fn make_touched1(&mut self)
        ensures
            final(self)@ == (HeaderView {
                marked: with_age(old(self)@.marked, G_TOUCHED1),
                ..old(self)@
            }),
            age_of(final(self)@.marked) == G_TOUCHED1,
    {
        self.set_age(G_TOUCHED1);
    }

    pub fn make_touched2(&mut self)
        ensures
            final(self)@ == (HeaderView {
                marked: with_age(old(self)@.marked, G_TOUCHED2),
                ..old(self)@
            }),
            age_of(final(self)@.marked) == G_TOUCHED2,
    {
        self.set_age(G_TOUCHED2);
    }

    pub fn make_survival(&mut self)
        ensures
            final(self)@ == (HeaderView {
                marked: with_age(old(self)@.marked, G_SURVIVAL),
                ..old(self)@
            }),
            age_of(final(self)@.marked) == G_SURVIVAL,
    {
        self.set_age(G_SURVIVAL);
    }

    // ============ Utility ============
    /// Marked: not white.
    pub fn is_marked(&self) -> (r: bool)
        ensures
            r == !white_of(self@.marked),
    {
        !self.is_white()
    }
}

impl Default for GcHeader {
    /// A gray header of age `G_NEW`, index 0 and size 0.
    fn default() -> (r: Self)
        ensures
            r@.marked == G_NEW,
            r@.index == 0,
            r@.size == 0,
    {
        let r = GcHeader { packed: G_NEW as u32, size: 0 };
        assert(r@.marked == 0 && r@.index == 0) by {
            let p = r.packed;
            assert((p & 0xFF) as u8 == 0 && p >> 8 == 0) by (bit_vector)
                requires
                    p == 0,
            ;
        }
        r
    }
}



/// Largest address an object pointer can hold: user-space addresses fit in 48 bits.
pub const ADDRESS_LIMIT: u64 = 0x1_0000_0000_0000;

/// Access to the header of a collectable object.
pub trait HasGcHeader {
    spec fn header_spec(&self) -> GcHeader;

    fn header(&self) -> (r: &GcHeader)
        ensures
            *r == self.header_spec(),
    ;
}

/// A collectable object: its header followed by its payload.
pub struct Gc<T> {
    pub header: GcHeader,
    pub data: T,
}

impl<T> Gc<T> {
    /// A new object carrying the given white, of age new, index 0 and the given size.
    pub fn new(data: T, current_white: u8, size: u32) -> (r: Self)
        requires
            current_white <= 1,
        ensures
            r.data == data,
            r.header@ == (HeaderView {
                marked: if current_white == 0 { 0x08u8 } else { 0x10u8 },
                index: 0,
                size,
            }),
    {
        let mut header = GcHeader::with_white(current_white);
        header.size = size;
        assert(header@.marked == (if current_white == 0 { 0x08u8 } else { 0x10u8 }));
        Gc { header, data }
    }
}

impl<T> HasGcHeader for Gc<T> {
    open spec fn header_spec(&self) -> GcHeader {
        self.header
    }

    fn header(&self) -> (r: &GcHeader) {
        &self.header
    }
}

pub type GcString = Gc<LuaString>;

pub type GcBinary = Gc<Vec<u8>>;

pub type GcTable = Gc<LuaTable>;

pub type GcFunction = Gc<LuaFunction>;

pub type GcCClosure = Gc<CClosureFunction>;

pub type GcRClosure = Gc<RClosureFunction>;

pub type GcUpvalue = Gc<LuaUpvalue>;

pub type GcThread = Gc<LuaState>;

pub type GcUserdata = Gc<LuaUserdata>;

/// Typed address of a collectable object; 0 is the null pointer.
pub struct GcPtr<T: HasGcHeader> {
    ptr: u64,
    _marker: PhantomData<T>,
}

impl<T: HasGcHeader> GcPtr<T> {
    /// The address held by this pointer.
    pub closed spec fn addr(&self) -> u64 {
        self.ptr
    }

    #[verifier::type_invariant]
    closed spec fn wf(&self) -> bool {
        self.ptr < ADDRESS_LIMIT
    }

    /// A pointer to the object at the given address.
    pub fn new(ptr: u64) -> (r: Self)
        requires
            ptr < ADDRESS_LIMIT,
        ensures
            r.addr() == ptr,
    {
        Self { ptr, _marker: PhantomData }
    }

    /// A pointer built back from the address bits of a tagged pointer.
    pub fn from_raw(raw: u64) -> (r: Self)
        requires
            raw < ADDRESS_LIMIT,
        ensures
            r.addr() == raw,
    {
        Self { ptr: raw, _marker: PhantomData }
    }

    /// The null pointer.
    pub fn null() -> (r: Self)
        ensures
            r.addr() == 0,
    {
        Self { ptr: 0, _marker: PhantomData }
    }

    /// The address held by this pointer.
    pub fn as_u64(&self) -> (r: u64)
        ensures
            r == self.addr(),
            r < ADDRESS_LIMIT,
    {
        proof {
            use_type_invariant(self);
        }
        self.ptr
    }

    pub fn is_null(&self) -> (r: bool)
        ensures
            r == (self.addr() == 0),
    {
        self.ptr == 0
    }

}

/// A pointer is determined by its address: two pointers are equal exactly when their
/// addresses are, so building pointers from addresses (`new`, `from_raw`) is one to one and
/// the null pointer is the one with address 0.
pub proof fn lemma_gc_ptr_determined_by_addr<T: HasGcHeader>(p: GcPtr<T>, q: GcPtr<T>)
    ensures
        p == q <==> p.addr() == q.addr(),
{
    if p.addr() == q.addr() {
        assert(p.ptr == q.ptr);
        assert(p._marker == q._marker);
    }
}

impl<T: HasGcHeader> Clone for GcPtr<T> {
    fn clone(&self) -> (r: Self)
        ensures
            r.addr() == self.addr(),
    {
        proof {
            use_type_invariant(self);
        }
        Self { ptr: self.ptr, _marker: PhantomData }
    }
}

impl<T: HasGcHeader> Copy for GcPtr<T> {

}

impl<T: HasGcHeader> PartialEq for GcPtr<T> {
    fn eq(&self, other: &Self) -> (r: bool) {
        self.ptr == other.ptr
    }
}

impl<T: HasGcHeader> vstd::std_specs::cmp::PartialEqSpecImpl for GcPtr<T> {
    open spec fn obeys_eq_spec() -> bool {
        true
    }

    open spec fn eq_spec(&self, other: &Self) -> bool {
        self.addr() == other.addr()
    }
}

impl<T: HasGcHeader> Eq for GcPtr<T> {

}

pub type UpvaluePtr = GcPtr<GcUpvalue>;

pub type BinaryPtr = GcPtr<GcBinary>;

pub type TablePtr = GcPtr<GcTable>;

pub type StringPtr = GcPtr<GcString>;

pub type FunctionPtr = GcPtr<GcFunction>;

pub type CClosurePtr = GcPtr<GcCClosure>;

pub type RClosurePtr = GcPtr<GcRClosure>;

pub type UserdataPtr = GcPtr<GcUserdata>;

pub type ThreadPtr = GcPtr<GcThread>;

/// The kind that a tag in 0..=8 stands for.
pub open spec fn kind_of_tag(tag: u64) -> GcObjectKind {
    if tag == 0 {
        GcObjectKind::String
    } else if tag == 1 {
        GcObjectKind::Table
    } else if tag == 2 {
        GcObjectKind::Function
    } else if tag == 3 {
        GcObjectKind::CClosure
    } else if tag == 4 {
        GcObjectKind::RClosure
    } else if tag == 5 {
        GcObjectKind::Upvalue
    } else if tag == 6 {
        GcObjectKind::Thread
    } else if tag == 7 {
        GcObjectKind::Userdata
    } else {
        GcObjectKind::Binary
    }
}

/// Abstract content of a tagged pointer: the kind of the object and its address.
pub struct GcObjectPtrView {
    pub kind: GcObjectKind,
    pub addr: u64,
}

/// Tagged pointer to a collectable object in one `u64`: the address in bits 0-47 and the
/// kind tag (0-8) in bits 60-63; bits 48-59 are zero.
#[derive(Clone, Copy, PartialEq, Eq, Structural)]
pub struct GcObjectPtr(u64);

impl View for GcObjectPtr {
    type V = GcObjectPtrView;

    closed spec fn view(&self) -> GcObjectPtrView {
        GcObjectPtrView { kind: kind_of_tag(self.0 >> 60), addr: self.0 & 0xFFFF_FFFF_FFFF }
    }
}

/// The tagged word for an address and a tag.
pub open spec fn tagged_word(ptr: u64, tag: u64) -> u64 {
    ptr | (tag << 60)
}

impl GcObjectPtr {
    #[verifier::type_invariant]
    closed spec fn wf(&self) -> bool {
        &&& self.0 >> 60 <= 8
        &&& self.0 & 0x0FFF_0000_0000_0000 == 0
    }

    /// The raw word of this pointer.
    pub closed spec fn word(&self) -> u64 {
        self.0
    }

    fn new_tagged(ptr: u64, tag: u64) -> (r: Self)
        requires
            ptr < ADDRESS_LIMIT,
            tag <= 8,
        ensures
            r@ == (GcObjectPtrView { kind: kind_of_tag(tag), addr: ptr }),
            r == from_tagged(ptr, tag),
    {
        let w = ptr | (tag << 60);
        assert(w >> 60 == tag && w & 0xFFFF_FFFF_FFFF == ptr && w & 0x0FFF_0000_0000_0000 == 0)
            by (bit_vector)
            requires
                w == ptr | (tag << 60),
                ptr < 0x1_0000_0000_0000,
                tag <= 8,
        ;
        GcObjectPtr(w)
    }

    /// The kind tag (bits 60-63).
    fn tag(&self) -> (r: u8)
        ensures
            r <= 8,
            kind_of_tag(r as u64) == self@.kind,
            r == kind_tag(self@.kind),
    {
        proof {
            use_type_invariant(self);
        }
        (self.0 >> 60) as u8
    }

    /// The address (bits 0-47).
    fn addr_bits(&self) -> (r: u64)
        ensures
            r == self@.addr,
            r < ADDRESS_LIMIT,
    {
        let w = self.0;
        assert(w & 0xFFFF_FFFF_FFFF < 0x1_0000_0000_0000) by (bit_vector);
        w & 0xFFFF_FFFF_FFFF
    }

    /// The kind of the object.
    pub fn kind(&self) -> (r: GcObjectKind)
        ensures
            r == self@.kind,
    {
        match self.tag() {
            0 => GcObjectKind::String,
            1 => GcObjectKind::Table,
            2 => GcObjectKind::Function,
            3 => GcObjectKind::CClosure,
            4 => GcObjectKind::RClosure,
            5 => GcObjectKind::Upvalue,
            6 => GcObjectKind::Thread,
            7 => GcObjectKind::Userdata,
            _ => GcObjectKind::Binary,
        }
    }

    // ============ Typed pointer extraction ============
    pub fn as_string_ptr(&self) -> (r: StringPtr)
        requires
            self@.kind == GcObjectKind::String,
        ensures
            r.addr() == self@.addr,
    {
        StringPtr::from_raw(self.addr_bits())
    }

    pub fn as_table_ptr(&self) -> (r: TablePtr)
        requires
            self@.kind == GcObjectKind::Table,
        ensures
            r.addr() == self@.addr,
    {
        TablePtr::from_raw(self.addr_bits())
    }

    pub fn as_function_ptr(&self) -> (r: FunctionPtr)
        requires
            self@.kind == GcObjectKind::Function,
        ensures
            r.addr() == self@.addr,
    {
        FunctionPtr::from_raw(self.addr_bits())
    }

    pub fn as_cclosure_ptr(&self) -> (r: CClosurePtr)
        requires
            self@.kind == GcObjectKind::CClosure,
        ensures
            r.addr() == self@.addr,
    {
        CClosurePtr::from_raw(self.addr_bits())
    }

    pub fn as_rclosure_ptr(&self) -> (r: RClosurePtr)
        requires
            self@.kind == GcObjectKind::RClosure,
        ensures
            r.addr() == self@.addr,
    {
        RClosurePtr::from_raw(self.addr_bits())
    }

    pub fn as_upvalue_ptr(&self) -> (r: UpvaluePtr)
        requires
            self@.kind == GcObjectKind::Upvalue,
        ensures
            r.addr() == self@.addr,
    {
        UpvaluePtr::from_raw(self.addr_bits())
    }

    pub fn as_thread_ptr(&self) -> (r: ThreadPtr)
        requires
            self@.kind == GcObjectKind::Thread,
        ensures
            r.addr() == self@.addr,
    {
        ThreadPtr::from_raw(self.addr_bits())
    }

    pub fn as_userdata_ptr(&self) -> (r: UserdataPtr)
        requires
            self@.kind == GcObjectKind::Userdata,
        ensures
            r.addr() == self@.addr,
    {
        UserdataPtr::from_raw(self.addr_bits())
    }

    pub fn as_binary_ptr(&self) -> (r: BinaryPtr)
        requires
            self@.kind == GcObjectKind::Binary,
        ensures
            r.addr() == self@.addr,
    {
        BinaryPtr::from_raw(self.addr_bits())
    }

    /// Make the object this pointer addresses permanent: old, and gray for good so that no
    /// collection ever sweeps it. `header` is that object's header; a null pointer addresses
    /// no object and leaves it alone.
    pub fn fix_gc_object(&self, header: &mut GcHeader)
        ensures
            self@.addr == 0 ==> *final(header) == *old(header),
            self@.addr != 0 ==> {
                &&& age_of(final(header)@.marked) == G_OLD
                &&& gray_of(final(header)@.marked)
                &&& flags_of(final(header)@.marked) == flags_of(old(header)@.marked)
                &&& final(header)@.index == old(header)@.index
                &&& final(header)@.size == old(header)@.size
            },
    {
        if self.addr_bits() != 0 {
            header.set_age(G_OLD);
            header.make_gray();
        }
    }

    // ============ Kind tests ============
    pub fn is_string(&self) -> (r: bool)
        ensures
            r == (self@.kind == GcObjectKind::String),
    {
        self.tag() == 0
    }

    pub fn is_table(&self) -> (r: bool)
        ensures
            r == (self@.kind == GcObjectKind::Table),
    {
        self.tag() == 1
    }

    pub fn is_upvalue(&self) -> (r: bool)
        ensures
            r == (self@.kind == GcObjectKind::Upvalue),
    {
        self.tag() == 5
    }

    pub fn is_thread(&self) -> (r: bool)
        ensures
            r == (self@.kind == GcObjectKind::Thread),
    {
        self.tag() == 6
    }

    pub fn is_function(&self) -> (r: bool)
        ensures
            r == (self@.kind == GcObjectKind::Function),
    {
        self.tag() == 2
    }

    pub fn is_cclosure(&self) -> (r: bool)
        ensures
            r == (self@.kind == GcObjectKind::CClosure),
    {
        self.tag() == 3
    }

    pub fn is_rclosure(&self) -> (r: bool)
        ensures
            r == (self@.kind == GcObjectKind::RClosure),
    {
        self.tag() == 4
    }

    pub fn is_userdata(&self) -> (r: bool)
        ensures
            r == (self@.kind == GcObjectKind::Userdata),
    {
        self.tag() == 7
    }

    pub fn is_binary(&self) -> (r: bool)
        ensures
            r == (self@.kind == GcObjectKind::Binary),
    {
        self.tag() == 8
    }
}

/// The tagged pointer for an address and a tag.
pub closed spec fn from_tagged(ptr: u64, tag: u64) -> GcObjectPtr {
    GcObjectPtr(tagged_word(ptr, tag))
}

/// The tagged pointer for an address below the limit and a tag in 0..=8 has that kind and
/// that address.
pub proof fn lemma_from_tagged(ptr: u64, tag: u64)
    requires
        ptr < ADDRESS_LIMIT,
        tag <= 8,
    ensures
        from_tagged(ptr, tag)@ == (GcObjectPtrView { kind: kind_of_tag(tag), addr: ptr }),
{
    let w = tagged_word(ptr, tag);
    assert(w >> 60 == tag && w & 0xFFFF_FFFF_FFFF == ptr) by (bit_vector)
        requires
            w == ptr | (tag << 60),
            ptr < 0x1_0000_0000_0000,
            tag <= 8,
    ;
}

impl From<StringPtr> for GcObjectPtr {
    fn from(ptr: StringPtr) -> (r: Self) {
        Self::new_tagged(ptr.as_u64(), 0)
    }
}

impl vstd::std_specs::convert::FromSpecImpl<StringPtr> for GcObjectPtr {
    open spec fn obeys_from_spec() -> bool {
        true
    }

    open spec fn from_spec(v: StringPtr) -> Self {
        from_tagged(v.addr(), 0)
    }
}

impl From<BinaryPtr> for GcObjectPtr {
    fn from(ptr: BinaryPtr) -> (r: Self) {
        Self::new_tagged(ptr.as_u64(), 8)
    }
}

impl vstd::std_specs::convert::FromSpecImpl<BinaryPtr> for GcObjectPtr {
    open spec fn obeys_from_spec() -> bool {
        true
    }

    open spec fn from_spec(v: BinaryPtr) -> Self {
        from_tagged(v.addr(), 8)
    }
}

impl From<TablePtr> for GcObjectPtr {
    fn from(ptr: TablePtr) -> (r: Self) {
        Self::new_tagged(ptr.as_u64(), 1)
    }
}

impl vstd::std_specs::convert::FromSpecImpl<TablePtr> for GcObjectPtr {
    open spec fn obeys_from_spec() -> bool {
        true
    }

    open spec fn from_spec(v: TablePtr) -> Self {
        from_tagged(v.addr(), 1)
    }
}

impl From<FunctionPtr> for GcObjectPtr {
    fn from(ptr: FunctionPtr) -> (r: Self) {
        Self::new_tagged(ptr.as_u64(), 2)
    }
}

impl vstd::std_specs::convert::FromSpecImpl<FunctionPtr> for GcObjectPtr {
    open spec fn obeys_from_spec() -> bool {
        true
    }

    open spec fn from_spec(v: FunctionPtr) -> Self {
        from_tagged(v.addr(), 2)
    }
}

impl From<UpvaluePtr> for GcObjectPtr {
    fn from(ptr: UpvaluePtr) -> (r: Self) {
        Self::new_tagged(ptr.as_u64(), 5)
    }
}

impl vstd::std_specs::convert::FromSpecImpl<UpvaluePtr> for GcObjectPtr {
    open spec fn obeys_from_spec() -> bool {
        true
    }

    open spec fn from_spec(v: UpvaluePtr) -> Self {
        from_tagged(v.addr(), 5)
    }
}

impl From<ThreadPtr> for GcObjectPtr {
    fn from(ptr: ThreadPtr) -> (r: Self) {
        Self::new_tagged(ptr.as_u64(), 6)
    }
}

impl vstd::std_specs::convert::FromSpecImpl<ThreadPtr> for GcObjectPtr {
    open spec fn obeys_from_spec() -> bool {
        true
    }

    open spec fn from_spec(v: ThreadPtr) -> Self {
        from_tagged(v.addr(), 6)
    }
}

impl From<UserdataPtr> for GcObjectPtr {
    fn from(ptr: UserdataPtr) -> (r: Self) {
        Self::new_tagged(ptr.as_u64(), 7)
    }
}

impl vstd::std_specs::convert::FromSpecImpl<UserdataPtr> for GcObjectPtr {
    open spec fn obeys_from_spec() -> bool {
        true
    }

    open spec fn from_spec(v: UserdataPtr) -> Self {
        from_tagged(v.addr(), 7)
    }
}

impl From<CClosurePtr> for GcObjectPtr {
    fn from(ptr: CClosurePtr) -> (r: Self) {
        Self::new_tagged(ptr.as_u64(), 3)
    }
}

impl vstd::std_specs::convert::FromSpecImpl<CClosurePtr> for GcObjectPtr {
    open spec fn obeys_from_spec() -> bool {
        true
    }

    open spec fn from_spec(v: CClosurePtr) -> Self {
        from_tagged(v.addr(), 3)
    }
}

impl From<RClosurePtr> for GcObjectPtr {
    fn from(ptr: RClosurePtr) -> (r: Self) {
        Self::new_tagged(ptr.as_u64(), 4)
    }
}

impl vstd::std_specs::convert::FromSpecImpl<RClosurePtr> for GcObjectPtr {
    open spec fn obeys_from_spec() -> bool {
        true
    }

    open spec fn from_spec(v: RClosurePtr) -> Self {
        from_tagged(v.addr(), 4)
    }
}



/// Owner of one collectable object: the collector's object lists own every object.
pub enum GcObjectOwner {
    String(Box<GcString>),
    Table(Box<GcTable>),
    Function(Box<GcFunction>),
    Upvalue(Box<GcUpvalue>),
    Thread(Box<GcThread>),
    Userdata(Box<GcUserdata>),
    CClosure(Box<GcCClosure>),
    RClosure(Box<GcRClosure>),
    Binary(Box<GcBinary>),
}

impl GcObjectOwner {
    /// The object's header.
    pub open spec fn header_of(&self) -> GcHeader {
        match self {
            GcObjectOwner::String(o) => o.header,
            GcObjectOwner::Table(o) => o.header,
            GcObjectOwner::Function(o) => o.header,
            GcObjectOwner::Upvalue(o) => o.header,
            GcObjectOwner::Thread(o) => o.header,
            GcObjectOwner::Userdata(o) => o.header,
            GcObjectOwner::CClosure(o) => o.header,
            GcObjectOwner::RClosure(o) => o.header,
            GcObjectOwner::Binary(o) => o.header,
        }
    }

    /// The same object with its header replaced.
    pub open spec fn with_header(&self, h: GcHeader) -> GcObjectOwner {
        match self {
            GcObjectOwner::String(o) => GcObjectOwner::String(
                Box::new(GcString { header: h, data: o.data }),
            ),
            GcObjectOwner::Table(o) => GcObjectOwner::Table(
                Box::new(GcTable { header: h, data: o.data }),
            ),
            GcObjectOwner::Function(o) => GcObjectOwner::Function(
                Box::new(GcFunction { header: h, data: o.data }),
            ),
            GcObjectOwner::Upvalue(o) => GcObjectOwner::Upvalue(
                Box::new(GcUpvalue { header: h, data: o.data }),
            ),
            GcObjectOwner::Thread(o) => GcObjectOwner::Thread(
                Box::new(GcThread { header: h, data: o.data }),
            ),
            GcObjectOwner::Userdata(o) => GcObjectOwner::Userdata(
                Box::new(GcUserdata { header: h, data: o.data }),
            ),
            GcObjectOwner::CClosure(o) => GcObjectOwner::CClosure(
                Box::new(GcCClosure { header: h, data: o.data }),
            ),
            GcObjectOwner::RClosure(o) => GcObjectOwner::RClosure(
                Box::new(GcRClosure { header: h, data: o.data }),
            ),
            GcObjectOwner::Binary(o) => GcObjectOwner::Binary(
                Box::new(GcBinary { header: h, data: o.data }),
            ),
        }
    }

    /// The object with its list index set to `index` and nothing else changed.
    pub open spec fn reindexed(&self, other: &GcObjectOwner, index: int) -> bool {
        &&& *other == self.with_header(other.header_of())
        &&& other.header_of()@ == (HeaderView { index: index as u32, ..self.header_of()@ })
    }

    /// The kind of object owned.
    pub open spec fn kind_spec(&self) -> GcObjectKind {
        match self {
            GcObjectOwner::String(_) => GcObjectKind::String,
            GcObjectOwner::Table(_) => GcObjectKind::Table,
            GcObjectOwner::Function(_) => GcObjectKind::Function,
            GcObjectOwner::Upvalue(_) => GcObjectKind::Upvalue,
            GcObjectOwner::Thread(_) => GcObjectKind::Thread,
            GcObjectOwner::Userdata(_) => GcObjectKind::Userdata,
            GcObjectOwner::CClosure(_) => GcObjectKind::CClosure,
            GcObjectOwner::RClosure(_) => GcObjectKind::RClosure,
            GcObjectOwner::Binary(_) => GcObjectKind::Binary,
        }
    }

    /// The kind of object owned.
    pub fn kind(&self) -> (r: GcObjectKind)
        ensures
            r == self.kind_spec(),
    {
        match self {
            GcObjectOwner::String(_) => GcObjectKind::String,
            GcObjectOwner::Table(_) => GcObjectKind::Table,
            GcObjectOwner::Function(_) => GcObjectKind::Function,
            GcObjectOwner::Upvalue(_) => GcObjectKind::Upvalue,
            GcObjectOwner::Thread(_) => GcObjectKind::Thread,
            GcObjectOwner::Userdata(_) => GcObjectKind::Userdata,
            GcObjectOwner::CClosure(_) => GcObjectKind::CClosure,
            GcObjectOwner::RClosure(_) => GcObjectKind::RClosure,
            GcObjectOwner::Binary(_) => GcObjectKind::Binary,
        }
    }

    /// The object's header.
    pub fn header(&self) -> (r: &GcHeader)
        ensures
            *r == self.header_of(),
    {
        match self {
            GcObjectOwner::String(o) => &o.header,
            GcObjectOwner::Table(o) => &o.header,
            GcObjectOwner::Function(o) => &o.header,
            GcObjectOwner::Upvalue(o) => &o.header,
            GcObjectOwner::Thread(o) => &o.header,
            GcObjectOwner::Userdata(o) => &o.header,
            GcObjectOwner::CClosure(o) => &o.header,
            GcObjectOwner::RClosure(o) => &o.header,
            GcObjectOwner::Binary(o) => &o.header,
        }
    }

    /// Mutable access to the object's header; the rest of the object is unchanged.
    pub fn header_mut(&mut self) -> (r: &mut GcHeader)
        ensures
            *r == old(self).header_of(),
            *final(self) == old(self).with_header(*final(r)),
    {
        match self {
            GcObjectOwner::String(o) => &mut o.header,
            GcObjectOwner::Table(o) => &mut o.header,
            GcObjectOwner::Function(o) => &mut o.header,
            GcObjectOwner::Upvalue(o) => &mut o.header,
            GcObjectOwner::Thread(o) => &mut o.header,
            GcObjectOwner::Userdata(o) => &mut o.header,
            GcObjectOwner::CClosure(o) => &mut o.header,
            GcObjectOwner::RClosure(o) => &mut o.header,
            GcObjectOwner::Binary(o) => &mut o.header,
        }
    }

    /// Mutable access to the payload of a table object; `None` for other kinds.
    pub fn as_table_mut(&mut self) -> (r: Option<&mut LuaTable>)
        ensures
            r is Some == (*old(self) is Table),
            r matches Some(d) ==> {
                &&& *d == (*old(self))->Table_0.data
                &&& *final(self) == GcObjectOwner::Table(
                    Box::new(GcTable { header: (*old(self))->Table_0.header, data: *final(d) }),
                )
            },
            r is None ==> *final(self) == *old(self),
    {
        match self {
            GcObjectOwner::Table(o) => Some(&mut o.data),
            _ => None,
        }
    }

    /// Mutable access to the payload of a function object; `None` for other kinds.
    pub fn as_function_mut(&mut self) -> (r: Option<&mut LuaFunction>)
        ensures
            r is Some == (*old(self) is Function),
            r matches Some(d) ==> {
                &&& *d == (*old(self))->Function_0.data
                &&& *final(self) == GcObjectOwner::Function(
                    Box::new(GcFunction { header: (*old(self))->Function_0.header, data: *final(d) }),
                )
            },
            r is None ==> *final(self) == *old(self),
    {
        match self {
            GcObjectOwner::Function(o) => Some(&mut o.data),
            _ => None,
        }
    }

    /// Mutable access to the payload of a upvalue object; `None` for other kinds.
    pub fn as_upvalue_mut(&mut self) -> (r: Option<&mut LuaUpvalue>)
        ensures
            r is Some == (*old(self) is Upvalue),
            r matches Some(d) ==> {
                &&& *d == (*old(self))->Upvalue_0.data
                &&& *final(self) == GcObjectOwner::Upvalue(
                    Box::new(GcUpvalue { header: (*old(self))->Upvalue_0.header, data: *final(d) }),
                )
            },
            r is None ==> *final(self) == *old(self),
    {
        match self {
            GcObjectOwner::Upvalue(o) => Some(&mut o.data),
            _ => None,
        }
    }

    /// Mutable access to the payload of a thread object; `None` for other kinds.
    pub fn as_thread_mut(&mut self) -> (r: Option<&mut LuaState>)
        ensures
            r is Some == (*old(self) is Thread),
            r matches Some(d) ==> {
                &&& *d == (*old(self))->Thread_0.data
                &&& *final(self) == GcObjectOwner::Thread(
                    Box::new(GcThread { header: (*old(self))->Thread_0.header, data: *final(d) }),
                )
            },
            r is None ==> *final(self) == *old(self),
    {
        match self {
            GcObjectOwner::Thread(o) => Some(&mut o.data),
            _ => None,
        }
    }

    /// Mutable access to the payload of a userdata object; `None` for other kinds.
    pub fn as_userdata_mut(&mut self) -> (r: Option<&mut LuaUserdata>)
        ensures
            r is Some == (*old(self) is Userdata),
            r matches Some(d) ==> {
                &&& *d == (*old(self))->Userdata_0.data
                &&& *final(self) == GcObjectOwner::Userdata(
                    Box::new(GcUserdata { header: (*old(self))->Userdata_0.header, data: *final(d) }),
                )
            },
            r is None ==> *final(self) == *old(self),
    {
        match self {
            GcObjectOwner::Userdata(o) => Some(&mut o.data),
            _ => None,
        }
    }

    /// Mutable access to the payload of a cclosure object; `None` for other kinds.
    pub fn as_cclosure_mut(&mut self) -> (r: Option<&mut CClosureFunction>)
        ensures
            r is Some == (*old(self) is CClosure),
            r matches Some(d) ==> {
                &&& *d == (*old(self))->CClosure_0.data
                &&& *final(self) == GcObjectOwner::CClosure(
                    Box::new(GcCClosure { header: (*old(self))->CClosure_0.header, data: *final(d) }),
                )
            },
            r is None ==> *final(self) == *old(self),
    {
        match self {
            GcObjectOwner::CClosure(o) => Some(&mut o.data),
            _ => None,
        }
    }

    /// Mutable access to the payload of a rclosure object; `None` for other kinds.
    pub fn as_rclosure_mut(&mut self) -> (r: Option<&mut RClosureFunction>)
        ensures
            r is Some == (*old(self) is RClosure),
            r matches Some(d) ==> {
                &&& *d == (*old(self))->RClosure_0.data
                &&& *final(self) == GcObjectOwner::RClosure(
                    Box::new(GcRClosure { header: (*old(self))->RClosure_0.header, data: *final(d) }),
                )
            },
            r is None ==> *final(self) == *old(self),
    {
        match self {
            GcObjectOwner::RClosure(o) => Some(&mut o.data),
            _ => None,
        }
    }

    /// The allocation-time size recorded in the header.
    pub fn size(&self) -> (r: usize)
        ensures
            r == self.header_of()@.size,
    {
        self.header().size as usize
    }

    /// The allocation-time size recorded in the header.
    pub fn size_of_data(&self) -> (r: usize)
        ensures
            r == self.header_of()@.size,
    {
        self.header().size as usize
    }
}


/// Every object records its own position in the list, and every position fits in a header.
pub open spec fn gc_list_indexed(objs: Seq<GcObjectOwner>) -> bool {
    &&& objs.len() <= INDEX_MAX + 1
    &&& forall|i: int| 0 <= i < objs.len() ==> #[trigger] objs[i].header_of()@.index == i
}

/// A compact list of owned objects: adding pushes at the end, removing moves the last
/// object into the hole, and each object's header records where it is.
pub struct GcList {
    gc_list: Vec<GcObjectOwner>,
}

impl View for GcList {
    type V = Seq<GcObjectOwner>;

    closed spec fn view(&self) -> Seq<GcObjectOwner> {
        self.gc_list@
    }
}

impl GcList {
    /// Well formed: every object records its own position.
    pub open spec fn wf(&self) -> bool {
        gc_list_indexed(self@)
    }

    pub fn new() -> (r: Self)
        ensures
            r.wf(),
            r@ == Seq::<GcObjectOwner>::empty(),
    {
        GcList { gc_list: Vec::new() }
    }

    /// An empty list with room for `cap` objects.
    pub fn with_capacity(cap: usize) -> (r: Self)
        ensures
            r.wf(),
            r@ == Seq::<GcObjectOwner>::empty(),
    {
        GcList { gc_list: Vec::with_capacity(cap) }
    }

    /// Add an object at the end; its header records its position.
    pub fn add(&mut self, value: GcObjectOwner)
        requires
            old(self).wf(),
            old(self)@.len() <= INDEX_MAX,
        ensures
            final(self).wf(),
            final(self)@.len() == old(self)@.len() + 1,
            final(self)@.subrange(0, old(self)@.len() as int) == old(self)@,
            value.reindexed(&final(self)@.last(), old(self)@.len() as int),
    {
        let mut value = value;
        let index = self.gc_list.len();
        value.header_mut().set_index(index);
        self.gc_list.push(value);
        assert(self@.subrange(0, old(self)@.len() as int) =~= old(self)@);
    }

    /// Remove the object at position `index` and hand it back; the last object moves into
    /// its place and records its new position.
    pub fn remove(&mut self, index: usize) -> (r: GcObjectOwner)
        requires
            old(self).wf(),
            index < old(self)@.len(),
        ensures
            final(self).wf(),
            r == old(self)@[index as int],
            final(self)@.len() == old(self)@.len() - 1,
            forall|k: int|
                0 <= k < final(self)@.len() && k != index ==> #[trigger] final(self)@[k] == old(
                    self,
                )@[k],
            index < final(self)@.len() ==> old(self)@.last().reindexed(
                &final(self)@[index as int],
                index as int,
            ),
    {
        let last_index = self.gc_list.len() - 1;
        if index != last_index {
            self.gc_list[last_index].header_mut().set_index(index);
        }
        let ghost before = self.gc_list@;
        let r = self.gc_list.swap_remove(index);
        proof {
            assert forall|i: int| 0 <= i < self@.len() implies #[trigger] self@[i].header_of()@.index
                == i by {
                if i != index {
                    assert(self@[i] == old(self)@[i]);
                }
            }
        }
        r
    }

    /// Number of objects.
    pub fn len(&self) -> (r: usize)
        ensures
            r == self@.len(),
    {
        self.gc_list.len()
    }

    pub fn is_empty(&self) -> (r: bool)
        ensures
            r == (self@.len() == 0),
    {
        self.gc_list.len() == 0
    }

    /// Drop every object.
    pub fn clear(&mut self)
        ensures
            final(self).wf(),
            final(self)@ == Seq::<GcObjectOwner>::empty(),
    {
        self.gc_list.clear();
    }

    /// The object at position `index`, if there is one.
    pub fn get(&self, index: usize) -> (r: Option<&GcObjectOwner>)
        ensures
            r == (if index < self@.len() {
                Some(&self@[index as int])
            } else {
                None
            }),
    {
        if index < self.gc_list.len() {
            Some(&self.gc_list[index])
        } else {
            None
        }
    }

    /// Mutable access to the object at position `index`, if there is one. The list stays
    /// well formed as long as the object's header keeps its index.
    pub fn get_mut(&mut self, index: usize) -> (r: Option<&mut GcObjectOwner>)
        ensures
            r is Some == (index < old(self)@.len()),
            r matches Some(o) ==> {
                &&& *o == old(self)@[index as int]
                &&& final(self)@ == old(self)@.update(index as int, *final(o))
            },
            r is None ==> final(self)@ == old(self)@,
    {
        if index < self.gc_list.len() {
            Some(&mut self.gc_list[index])
        } else {
            None
        }
    }

    /// The object at position `index`.
    pub fn get_owner(&self, index: usize) -> (r: &GcObjectOwner)
        requires
            index < self@.len(),
        ensures
            *r == self@[index as int],
    {
        &self.gc_list[index]
    }

    /// Take every object out, leaving the list empty.
    pub fn take_all(&mut self) -> (r: Vec<GcObjectOwner>)
        ensures
            r@ == old(self)@,
            final(self).wf(),
            final(self)@ == Seq::<GcObjectOwner>::empty(),
    {
        let mut taken: Vec<GcObjectOwner> = Vec::new();
        std::mem::swap(&mut taken, &mut self.gc_list);
        taken
    }

    /// Add several objects at the end, in order; each header records its position.
    pub fn add_all(&mut self, objects: Vec<GcObjectOwner>)
        requires
            old(self).wf(),
            old(self)@.len() + objects@.len() <= INDEX_MAX + 1,
        ensures
            final(self).wf(),
            final(self)@.len() == old(self)@.len() + objects@.len(),
            final(self)@.subrange(0, old(self)@.len() as int) == old(self)@,
            forall|k: int|
                0 <= k < objects@.len() ==> objects@[k].reindexed(
                    &#[trigger] final(self)@[old(self)@.len() + k],
                    old(self)@.len() + k,
                ),
    {
        let mut objects = objects;
        let n = objects.len();
        let start = self.gc_list.len();
        let ghost objs = objects@;
        let mut i: usize = 0;
        while i < n
            invariant
                n == objs.len(),
                i <= n,
                start == old(self)@.len(),
                start + n <= INDEX_MAX + 1,
                gc_list_indexed(self@),
                self@.len() == start + i,
                self@.subrange(0, start as int) == old(self)@,
                objects@ == objs.subrange(i as int, n as int),
                forall|k: int|
                    0 <= k < i ==> objs[k].reindexed(&#[trigger] self@[start + k], start + k),
            decreases n - i,
        {
            let obj = objects.remove(0);
            assert(obj == objs[i as int]);
            assert(objects@ =~= objs.subrange(i + 1, n as int));
            let ghost before = self@;
            self.add(obj);
            assert forall|k: int| 0 <= k < i + 1 implies objs[k].reindexed(
                &#[trigger] self@[start + k],
                start + k,
            ) by {
                if k < i {
                    assert(self@[start + k] == self@.subrange(0, before.len() as int)[start + k]);
                }
            }
            assert(self@.subrange(0, start as int) =~= before.subrange(0, start as int));
            i = i + 1;
        }
    }
}

impl Default for GcList {
    fn default() -> (r: Self)
        ensures
            r.wf(),
            r@ == Seq::<GcObjectOwner>::empty(),
    {
        Self::new()
    }
}

} // verus!
