use vstd::arithmetic::power2::pow2;
use vstd::prelude::*;

use vstd::utf8::{encode_utf8, is_ascii_chars};

use crate::gc::gc_kind::GcObjectKind;
use crate::gc::gc_object::{
    lemma_from_tagged, BinaryPtr, CClosurePtr, FunctionPtr, GcObjectPtr, GcObjectPtrView,
    RClosurePtr, StringPtr, TablePtr, ThreadPtr, UserdataPtr, ADDRESS_LIMIT,
};
use crate::lua_value::LuaString;

verus! {

// ============ Basic type tags (bits 0-3) ============
pub const LUA_TNIL: u8 = 0;
pub const LUA_TBOOLEAN: u8 = 1;
pub const LUA_TLIGHTUSERDATA: u8 = 2;
pub const LUA_TNUMBER: u8 = 3;
pub const LUA_TSTRING: u8 = 4;
pub const LUA_TTABLE: u8 = 5;
pub const LUA_TFUNCTION: u8 = 6;
pub const LUA_TUSERDATA: u8 = 7;
pub const LUA_TTHREAD: u8 = 8;

// ============ Variant tags (variant in bits 4-5) ============
/// Plain nil.
pub const LUA_VNIL: u8 = 0x00;
/// Empty table slot.
pub const LUA_VEMPTY: u8 = 0x10;
/// Absent table key.
pub const LUA_VABSTKEY: u8 = 0x20;
pub const LUA_VFALSE: u8 = 0x01;
pub const LUA_VTRUE: u8 = 0x11;
/// Integer number.
pub const LUA_VNUMINT: u8 = 0x03;
/// Float number.
pub const LUA_VNUMFLT: u8 = 0x13;
/// Light userdata (not collectable).
pub const LUA_VLIGHTUSERDATA: u8 = 0x02;

/// Collectable values have bit 6 set.
pub const BIT_ISCOLLECTABLE: u8 = 0x40;

/// Short (interned) string.
pub const LUA_VSHRSTR: u8 = 0x44;
/// Long (not interned) string.
pub const LUA_VLNGSTR: u8 = 0x54;
/// Binary data.
pub const LUA_VBINARY: u8 = 0x64;
pub const LUA_VTABLE: u8 = 0x45;
/// Lua function (closure over a prototype).
pub const LUA_VFUNCTION: u8 = 0x46;
/// C closure.
pub const LUA_CCLOSURE: u8 = 0x56;
/// Light C function (not collectable).
pub const LUA_VLCF: u8 = 0x26;
/// Rust closure.
pub const LUA_VRCLOSURE: u8 = 0x76;
pub const LUA_VUSERDATA: u8 = 0x47;
pub const LUA_VTHREAD: u8 = 0x48;

/// A variant tag: the base type in bits 0-3 and the variant from bit 4 on.
pub fn makevariant(base: u8, variant: u8) -> (r: u8)
    ensures
        r == base | ((variant << 4u8) as u8),
{
    base | (variant << 4u8)
}

/// The base type of a tag (bits 0-3).
pub fn novariant(tt: u8) -> (r: u8)
    ensures
        r == tt % 16,
{
    assert(tt & 0x0F == tt % 16) by (bit_vector);
    tt & 0x0F
}

/// The tag without the collectable bit (bits 0-5).
pub fn withvariant(tt: u8) -> (r: u8)
    ensures
        r == tt % 64,
{
    assert(tt & 0x3F == tt % 64) by (bit_vector);
    tt & 0x3F
}

/// Base types whose payload is the address of an object (strings, tables, functions,
/// full userdata, threads).
pub open spec fn holds_address(tt: u8) -> bool {
    4 <= tt % 16 <= 8
}

/// The type name of a tag.
pub open spec fn type_name_of(tt: u8) -> Seq<char> {
    let t = tt % 16;
    if t == LUA_TNIL {
        "nil"@
    } else if t == LUA_TBOOLEAN {
        "boolean"@
    } else if t == LUA_TNUMBER {
        "number"@
    } else if t == LUA_TSTRING {
        "string"@
    } else if t == LUA_TTABLE {
        "table"@
    } else if t == LUA_TFUNCTION {
        "function"@
    } else if t == LUA_TLIGHTUSERDATA || t == LUA_TUSERDATA {
        "userdata"@
    } else if t == LUA_TTHREAD {
        "thread"@
    } else {
        "unknown"@
    }
}

/// Kind of a value, for pattern matching.
#[derive(Debug, Clone, Copy, PartialEq, Eq, PartialOrd, Ord, Structural)]
pub enum LuaValueKind {
    Nil,
    Boolean,
    Integer,
    Float,
    String,
    Binary,
    Table,
    Function,
    CFunction,
    CClosure,
    RClosure,
    Userdata,
    Thread,
}

/// The kind a tag stands for.
pub open spec fn kind_of(tt: u8) -> LuaValueKind {
    let t = tt % 16;
    if t == LUA_TNIL {
        LuaValueKind::Nil
    } else if t == LUA_TBOOLEAN {
        LuaValueKind::Boolean
    } else if t == LUA_TNUMBER {
        if tt == LUA_VNUMINT {
            LuaValueKind::Integer
        } else {
            LuaValueKind::Float
        }
    } else if t == LUA_TSTRING {
        if tt == LUA_VBINARY {
            LuaValueKind::Binary
        } else {
            LuaValueKind::String
        }
    } else if t == LUA_TTABLE {
        LuaValueKind::Table
    } else if t == LUA_TFUNCTION {
        if tt == LUA_VLCF {
            LuaValueKind::CFunction
        } else if tt == LUA_CCLOSURE {
            LuaValueKind::CClosure
        } else if tt == LUA_VRCLOSURE {
            LuaValueKind::RClosure
        } else {
            LuaValueKind::Function
        }
    } else if t == LUA_TLIGHTUSERDATA || t == LUA_TUSERDATA {
        LuaValueKind::Userdata
    } else if t == LUA_TTHREAD {
        LuaValueKind::Thread
    } else {
        LuaValueKind::Nil
    }
}

/// A tagged value: an 8-byte payload and a one-byte type tag.
///
/// The payload holds the integer (two's complement), the bits of a float, or the address of
/// a collectable object. Bits 0-3 of the tag are the base type, bits 4-5 the variant and
/// bit 6 marks collectable values.
#[derive(Clone, Copy)]
pub struct LuaValue {
    value: u64,
    tt: u8,
}

impl LuaValue {
    #[verifier::type_invariant]
    closed spec fn wf(&self) -> bool {
        holds_address(self.tt) ==> self.value < ADDRESS_LIMIT
    }

    /// The type tag.
    pub closed spec fn tag(&self) -> u8 {
        self.tt
    }

    /// The payload bits.
    pub closed spec fn payload(&self) -> u64 {
        self.value
    }

    // ============ Tag access ============
    pub fn tt(&self) -> (r: u8)
        ensures
            r == self.tag(),
    {
        self.tt
    }

    // ============ Constructors ============
    /// A value from its payload bits and tag.
    pub fn from_raw(value: u64, tt: u8) -> (r: Self)
        requires
            holds_address(tt) ==> value < ADDRESS_LIMIT,
        ensures
            r.payload() == value,
            r.tag() == tt,
    {
        Self { value, tt }
    }

    /// The payload bits (the address of an object, the representation of a number).
    pub fn raw_ptr_repr(&self) -> (r: u64)
        ensures
            r == self.payload(),
    {
        self.value
    }

    pub fn nil() -> (r: Self)
        ensures
            r.tag() == LUA_VNIL,
            r.payload() == 0,
    {
        Self { value: 0, tt: LUA_VNIL }
    }

    pub fn empty() -> (r: Self)
        ensures
            r.tag() == LUA_VEMPTY,
            r.payload() == 0,
    {
        Self { value: 0, tt: LUA_VEMPTY }
    }

    pub fn abstkey() -> (r: Self)
        ensures
            r.tag() == LUA_VABSTKEY,
            r.payload() == 0,
    {
        Self { value: 0, tt: LUA_VABSTKEY }
    }

    pub fn boolean(b: bool) -> (r: Self)
        ensures
            r.tag() == (if b { LUA_VTRUE } else { LUA_VFALSE }),
            r.payload() == 0,
    {
        Self {
            value: 0,
            tt: if b {
                LUA_VTRUE
            } else {
                LUA_VFALSE
            },
        }
    }

    pub fn integer(i: i64) -> (r: Self)
        ensures
            r.tag() == LUA_VNUMINT,
            r.payload() == i as u64,
    {
        Self { value: i as u64, tt: LUA_VNUMINT }
    }

    /// A light userdata: a bare address, not managed by the collector.
    pub fn lightuserdata(p: u64) -> (r: Self)
        ensures
            r.tag() == LUA_VLIGHTUSERDATA,
            r.payload() == p,
    {
        Self { value: p, tt: LUA_VLIGHTUSERDATA }
    }

    /// A short (interned) string.
    pub fn shortstring(ptr: StringPtr) -> (r: Self)
        ensures
            r.tag() == LUA_VSHRSTR,
            r.payload() == ptr.addr(),
    {
        Self { value: ptr.as_u64(), tt: LUA_VSHRSTR }
    }

    /// A long (not interned) string.
    pub fn longstring(ptr: StringPtr) -> (r: Self)
        ensures
            r.tag() == LUA_VLNGSTR,
            r.payload() == ptr.addr(),
    {
        Self { value: ptr.as_u64(), tt: LUA_VLNGSTR }
    }

    pub fn binary(ptr: BinaryPtr) -> (r: Self)
        ensures
            r.tag() == LUA_VBINARY,
            r.payload() == ptr.addr(),
    {
        Self { value: ptr.as_u64(), tt: LUA_VBINARY }
    }

    pub fn table(ptr: TablePtr) -> (r: Self)
        ensures
            r.tag() == LUA_VTABLE,
            r.payload() == ptr.addr(),
    {
        Self { value: ptr.as_u64(), tt: LUA_VTABLE }
    }

    pub fn function(ptr: FunctionPtr) -> (r: Self)
        ensures
            r.tag() == LUA_VFUNCTION,
            r.payload() == ptr.addr(),
    {
        Self { value: ptr.as_u64(), tt: LUA_VFUNCTION }
    }

    pub fn cclosure(ptr: CClosurePtr) -> (r: Self)
        ensures
            r.tag() == LUA_CCLOSURE,
            r.payload() == ptr.addr(),
    {
        Self { value: ptr.as_u64(), tt: LUA_CCLOSURE }
    }

    pub fn rclosure(ptr: RClosurePtr) -> (r: Self)
        ensures
            r.tag() == LUA_VRCLOSURE,
            r.payload() == ptr.addr(),
    {
        Self { value: ptr.as_u64(), tt: LUA_VRCLOSURE }
    }

    pub fn userdata(ptr: UserdataPtr) -> (r: Self)
        ensures
            r.tag() == LUA_VUSERDATA,
            r.payload() == ptr.addr(),
    {
        Self { value: ptr.as_u64(), tt: LUA_VUSERDATA }
    }

    pub fn thread(ptr: ThreadPtr) -> (r: Self)
        ensures
            r.tag() == LUA_VTHREAD,
            r.payload() == ptr.addr(),
    {
        Self { value: ptr.as_u64(), tt: LUA_VTHREAD }
    }
}


impl LuaValue {
    // ============ Type tests ============
    /// Type without variant (bits 0-3).
    pub fn ttype(&self) -> (r: u8)
        ensures
            r == self.tag() % 16,
    {
        novariant(self.tt)
    }

    /// Type tag with variant (bits 0-5).
    pub fn ttypetag(&self) -> (r: u8)
        ensures
            r == self.tag() % 64,
    {
        withvariant(self.tt)
    }

    /// Exact tag match.
    pub fn checktag(&self, t: u8) -> (r: bool)
        ensures
            r == (self.tag() == t),
    {
        self.tt == t
    }

    /// Type match, ignoring the variant.
    pub fn checktype(&self, t: u8) -> (r: bool)
        ensures
            r == (self.tag() % 16 == t),
    {
        novariant(self.tt) == t
    }

    /// The value is a collectable object.
    pub fn iscollectable(&self) -> (r: bool)
        ensures
            r == (self.tag() & BIT_ISCOLLECTABLE != 0),
    {
        (self.tt & BIT_ISCOLLECTABLE) != 0
    }

    pub fn is_collectable(&self) -> (r: bool)
        ensures
            r == (self.tag() & BIT_ISCOLLECTABLE != 0),
    {
        self.iscollectable()
    }

    pub fn ttisnil(&self) -> (r: bool)
        ensures
            r == (self.tag() % 16 == LUA_TNIL),
    {
        self.checktype(LUA_TNIL)
    }

    pub fn ttisstrictnil(&self) -> (r: bool)
        ensures
            r == (self.tag() == LUA_VNIL),
    {
        self.checktag(LUA_VNIL)
    }

    pub fn ttisempty(&self) -> (r: bool)
        ensures
            r == (self.tag() == LUA_VEMPTY),
    {
        self.checktag(LUA_VEMPTY)
    }

    pub fn isabstkey(&self) -> (r: bool)
        ensures
            r == (self.tag() == LUA_VABSTKEY),
    {
        self.checktag(LUA_VABSTKEY)
    }

    pub fn ttisboolean(&self) -> (r: bool)
        ensures
            r == (self.tag() % 16 == LUA_TBOOLEAN),
    {
        self.checktype(LUA_TBOOLEAN)
    }

    pub fn ttisfalse(&self) -> (r: bool)
        ensures
            r == (self.tag() == LUA_VFALSE),
    {
        self.checktag(LUA_VFALSE)
    }

    pub fn ttistrue(&self) -> (r: bool)
        ensures
            r == (self.tag() == LUA_VTRUE),
    {
        self.checktag(LUA_VTRUE)
    }

    pub fn ttisnumber(&self) -> (r: bool)
        ensures
            r == (self.tag() % 16 == LUA_TNUMBER),
    {
        self.checktype(LUA_TNUMBER)
    }

    pub fn ttisinteger(&self) -> (r: bool)
        ensures
            r == (self.tag() == LUA_VNUMINT),
    {
        self.checktag(LUA_VNUMINT)
    }

    pub fn ttisfloat(&self) -> (r: bool)
        ensures
            r == (self.tag() == LUA_VNUMFLT),
    {
        self.checktag(LUA_VNUMFLT)
    }

    pub fn ttisstring(&self) -> (r: bool)
        ensures
            r == (self.tag() % 16 == LUA_TSTRING),
    {
        self.checktype(LUA_TSTRING)
    }

    pub fn ttisbinary(&self) -> (r: bool)
        ensures
            r == (self.tag() == LUA_VBINARY),
    {
        self.checktag(LUA_VBINARY)
    }

    pub fn ttistable(&self) -> (r: bool)
        ensures
            r == (self.tag() == LUA_VTABLE),
    {
        self.checktag(LUA_VTABLE)
    }

    pub fn ttisfunction(&self) -> (r: bool)
        ensures
            r == (self.tag() % 16 == LUA_TFUNCTION),
    {
        self.checktype(LUA_TFUNCTION)
    }

    pub fn ttisluafunction(&self) -> (r: bool)
        ensures
            r == (self.tag() == LUA_VFUNCTION),
    {
        self.checktag(LUA_VFUNCTION)
    }

    pub fn ttiscfunction(&self) -> (r: bool)
        ensures
            r == (self.tag() == LUA_VLCF),
    {
        self.checktag(LUA_VLCF)
    }

    pub fn ttislightuserdata(&self) -> (r: bool)
        ensures
            r == (self.tag() == LUA_VLIGHTUSERDATA),
    {
        self.checktag(LUA_VLIGHTUSERDATA)
    }

    pub fn ttisfulluserdata(&self) -> (r: bool)
        ensures
            r == (self.tag() == LUA_VUSERDATA),
    {
        self.checktag(LUA_VUSERDATA)
    }

    pub fn ttisthread(&self) -> (r: bool)
        ensures
            r == (self.tag() == LUA_VTHREAD),
    {
        self.checktag(LUA_VTHREAD)
    }
}

impl LuaValue {
    // ============ Payload extraction ============
    /// The truth value of a boolean.
    pub fn bvalue(&self) -> (r: bool)
        requires
            self.tag() % 16 == LUA_TBOOLEAN,
        ensures
            r == (self.tag() == LUA_VTRUE),
    {
        self.tt == LUA_VTRUE
    }

    /// The integer of an integer value.
    pub fn ivalue(&self) -> (r: i64)
        requires
            self.tag() == LUA_VNUMINT,
        ensures
            r == self.payload() as i64,
    {
        self.value as i64
    }

    /// The address held by a light userdata.
    pub fn pvalue(&self) -> (r: u64)
        requires
            self.tag() == LUA_VLIGHTUSERDATA,
        ensures
            r == self.payload(),
    {
        self.value
    }

    // ============ Public type tests ============
    pub fn is_nil(&self) -> (r: bool)
        ensures
            r == (self.tag() % 16 == LUA_TNIL),
    {
        self.ttisnil()
    }

    pub fn is_boolean(&self) -> (r: bool)
        ensures
            r == (self.tag() % 16 == LUA_TBOOLEAN),
    {
        self.ttisboolean()
    }

    pub fn is_integer(&self) -> (r: bool)
        ensures
            r == (self.tag() == LUA_VNUMINT),
    {
        self.ttisinteger()
    }

    pub fn is_float(&self) -> (r: bool)
        ensures
            r == (self.tag() == LUA_VNUMFLT),
    {
        self.ttisfloat()
    }

    pub fn is_number(&self) -> (r: bool)
        ensures
            r == (self.tag() % 16 == LUA_TNUMBER),
    {
        self.ttisnumber()
    }

    /// A string or binary value.
    pub fn is_string(&self) -> (r: bool)
        ensures
            r == (self.tag() % 16 == LUA_TSTRING),
    {
        self.ttisstring()
    }

    pub fn is_short_string(&self) -> (r: bool)
        ensures
            r == (self.tag() == LUA_VSHRSTR),
    {
        self.checktag(LUA_VSHRSTR)
    }

    pub fn is_binary(&self) -> (r: bool)
        ensures
            r == (self.tag() == LUA_VBINARY),
    {
        self.ttisbinary()
    }

    pub fn is_table(&self) -> (r: bool)
        ensures
            r == (self.tag() == LUA_VTABLE),
    {
        self.ttistable()
    }

    /// Any kind of function.
    pub fn is_function(&self) -> (r: bool)
        ensures
            r == (self.tag() % 16 == LUA_TFUNCTION),
    {
        self.ttisfunction()
    }

    pub fn is_lua_function(&self) -> (r: bool)
        ensures
            r == (self.tag() == LUA_VFUNCTION),
    {
        self.ttisluafunction()
    }

    pub fn is_cfunction(&self) -> (r: bool)
        ensures
            r == (self.tag() == LUA_VLCF),
    {
        self.ttiscfunction()
    }

    pub fn is_cclosure(&self) -> (r: bool)
        ensures
            r == (self.tag() == LUA_CCLOSURE),
    {
        self.checktag(LUA_CCLOSURE)
    }

    pub fn is_rclosure(&self) -> (r: bool)
        ensures
            r == (self.tag() == LUA_VRCLOSURE),
    {
        self.checktag(LUA_VRCLOSURE)
    }

    /// Callable natively: light C function, C closure or Rust closure.
    pub fn is_c_callable(&self) -> (r: bool)
        ensures
            r == (self.tag() == LUA_VLCF || self.tag() == LUA_CCLOSURE || self.tag()
                == LUA_VRCLOSURE),
    {
        self.is_cfunction() || self.is_cclosure() || self.is_rclosure()
    }

    /// A full userdata.
    pub fn is_userdata(&self) -> (r: bool)
        ensures
            r == (self.tag() == LUA_VUSERDATA),
    {
        self.ttisfulluserdata()
    }

    pub fn is_thread(&self) -> (r: bool)
        ensures
            r == (self.tag() == LUA_VTHREAD),
    {
        self.ttisthread()
    }

    pub fn is_callable(&self) -> (r: bool)
        ensures
            r == (self.tag() % 16 == LUA_TFUNCTION),
    {
        self.ttisfunction()
    }

    pub fn as_boolean(&self) -> (r: Option<bool>)
        ensures
            r == (if self.tag() % 16 == LUA_TBOOLEAN {
                Some(self.tag() == LUA_VTRUE)
            } else {
                None
            }),
    {
        if self.ttisboolean() {
            Some(self.bvalue())
        } else {
            None
        }
    }

    pub fn as_bool(&self) -> (r: Option<bool>)
        ensures
            r == (if self.tag() % 16 == LUA_TBOOLEAN {
                Some(self.tag() == LUA_VTRUE)
            } else {
                None
            }),
    {
        self.as_boolean()
    }

    /// The integer of an integer value; `None` for every other value, floats included.
    pub fn as_integer_strict(&self) -> (r: Option<i64>)
        ensures
            r == (if self.tag() == LUA_VNUMINT {
                Some(self.payload() as i64)
            } else {
                None
            }),
    {
        if self.ttisinteger() {
            Some(self.ivalue())
        } else {
            None
        }
    }

    // ============ Object pointers ============
    fn addr(&self) -> (r: u64)
        requires
            holds_address(self.tag()),
        ensures
            r == self.payload(),
            r < ADDRESS_LIMIT,
    {
        proof {
            use_type_invariant(self);
        }
        self.value
    }

    pub fn as_table_ptr(&self) -> (r: Option<TablePtr>)
        ensures
            r is Some <==> self.tag() == LUA_VTABLE,
            r matches Some(p) ==> p.addr() == self.payload(),
    {
        if self.ttistable() {
            Some(TablePtr::new(self.addr()))
        } else {
            None
        }
    }

    /// The string object of a string or binary value.
    pub fn as_string_ptr(&self) -> (r: Option<StringPtr>)
        ensures
            r is Some <==> self.tag() % 16 == LUA_TSTRING,
            r matches Some(p) ==> p.addr() == self.payload(),
    {
        if self.ttisstring() {
            Some(StringPtr::new(self.addr()))
        } else {
            None
        }
    }

    pub fn as_binary_ptr(&self) -> (r: Option<BinaryPtr>)
        ensures
            r is Some <==> self.tag() == LUA_VBINARY,
            r matches Some(p) ==> p.addr() == self.payload(),
    {
        if self.ttisbinary() {
            Some(BinaryPtr::new(self.addr()))
        } else {
            None
        }
    }

    /// The function object of any function value.
    pub fn as_function_ptr(&self) -> (r: Option<FunctionPtr>)
        ensures
            r is Some <==> self.tag() % 16 == LUA_TFUNCTION,
            r matches Some(p) ==> p.addr() == self.payload(),
    {
        if self.ttisfunction() {
            Some(FunctionPtr::new(self.addr()))
        } else {
            None
        }
    }

    pub fn as_cclosure_ptr(&self) -> (r: Option<CClosurePtr>)
        ensures
            r is Some <==> self.tag() == LUA_CCLOSURE,
            r matches Some(p) ==> p.addr() == self.payload(),
    {
        if self.is_cclosure() {
            Some(CClosurePtr::new(self.addr()))
        } else {
            None
        }
    }

    pub fn as_rclosure_ptr(&self) -> (r: Option<RClosurePtr>)
        ensures
            r is Some <==> self.tag() == LUA_VRCLOSURE,
            r matches Some(p) ==> p.addr() == self.payload(),
    {
        if self.is_rclosure() {
            Some(RClosurePtr::new(self.addr()))
        } else {
            None
        }
    }

    pub fn as_userdata_ptr(&self) -> (r: Option<UserdataPtr>)
        ensures
            r is Some <==> self.tag() == LUA_VUSERDATA,
            r matches Some(p) ==> p.addr() == self.payload(),
    {
        if self.ttisfulluserdata() {
            Some(UserdataPtr::new(self.addr()))
        } else {
            None
        }
    }

    pub fn as_thread_ptr(&self) -> (r: Option<ThreadPtr>)
        ensures
            r is Some <==> self.tag() == LUA_VTHREAD,
            r matches Some(p) ==> p.addr() == self.payload(),
    {
        if self.ttisthread() {
            Some(ThreadPtr::new(self.addr()))
        } else {
            None
        }
    }

    /// The tagged object pointer of a collectable value: `None` for nil, booleans, numbers,
    /// light C functions and light userdata.
    pub fn as_gc_ptr(&self) -> (r: Option<GcObjectPtr>)
        ensures
            r is Some <==> gc_kind_of(self.tag()) is Some,
            r matches Some(p) ==> p@ == (GcObjectPtrView {
                kind: gc_kind_of(self.tag())->0,
                addr: self.payload(),
            }),
    {
        proof {
            use_type_invariant(self);
        }
        match self.kind() {
            LuaValueKind::Table => {
                let p = TablePtr::new(self.addr());
                proof {
                    lemma_from_tagged(self.payload(), 1);
                }
                Some(GcObjectPtr::from(p))
            },
            LuaValueKind::Function => {
                let p = FunctionPtr::new(self.addr());
                proof {
                    lemma_from_tagged(self.payload(), 2);
                }
                Some(GcObjectPtr::from(p))
            },
            LuaValueKind::CClosure => {
                let p = CClosurePtr::new(self.addr());
                proof {
                    lemma_from_tagged(self.payload(), 3);
                }
                Some(GcObjectPtr::from(p))
            },
            LuaValueKind::RClosure => {
                let p = RClosurePtr::new(self.addr());
                proof {
                    lemma_from_tagged(self.payload(), 4);
                }
                Some(GcObjectPtr::from(p))
            },
            LuaValueKind::String => {
                let p = StringPtr::new(self.addr());
                proof {
                    lemma_from_tagged(self.payload(), 0);
                }
                Some(GcObjectPtr::from(p))
            },
            LuaValueKind::Binary => {
                let p = BinaryPtr::new(self.addr());
                proof {
                    lemma_from_tagged(self.payload(), 8);
                }
                Some(GcObjectPtr::from(p))
            },
            LuaValueKind::Thread => {
                let p = ThreadPtr::new(self.addr());
                proof {
                    lemma_from_tagged(self.payload(), 6);
                }
                Some(GcObjectPtr::from(p))
            },
            LuaValueKind::Userdata => {
                if self.ttisfulluserdata() {
                    let p = UserdataPtr::new(self.addr());
                    proof {
                        lemma_from_tagged(self.payload(), 7);
                    }
                    Some(GcObjectPtr::from(p))
                } else {
                    None
                }
            },
            _ => None,
        }
    }

    /// The tagged object pointer of a value known to be a collectable object.
    pub fn as_gc_ptr_unchecked(&self) -> (r: GcObjectPtr)
        requires
            gc_kind_of(self.tag()) is Some,
        ensures
            r@ == (GcObjectPtrView { kind: gc_kind_of(self.tag())->0, addr: self.payload() }),
    {
        self.as_gc_ptr().unwrap()
    }

    /// The tagged object pointer of a value known to be a table.
    pub fn as_gc_ptr_table_unchecked(&self) -> (r: GcObjectPtr)
        requires
            self.tag() == LUA_VTABLE,
        ensures
            r@ == (GcObjectPtrView { kind: GcObjectKind::Table, addr: self.payload() }),
    {
        let p = TablePtr::new(self.addr());
        proof {
            lemma_from_tagged(self.payload(), 1);
        }
        GcObjectPtr::from(p)
    }

    /// The table pointer of a value known to be a table.
    pub fn as_table_ptr_unchecked(&self) -> (r: TablePtr)
        requires
            self.tag() == LUA_VTABLE,
        ensures
            r.addr() == self.payload(),
    {
        TablePtr::new(self.addr())
    }

    // ============ Truthiness ============
    /// Everything but nil and false is true.
    pub fn is_truthy(&self) -> (r: bool)
        ensures
            r == !(self.tag() % 16 == LUA_TNIL || self.tag() == LUA_VFALSE),
    {
        !self.is_falsy()
    }

    /// Only nil (of any variant) and false are false.
    pub fn is_falsy(&self) -> (r: bool)
        ensures
            r == (self.tag() % 16 == LUA_TNIL || self.tag() == LUA_VFALSE),
    {
        self.ttisnil() || self.ttisfalse()
    }

    // ============ Type name and kind ============
    pub fn lua_type_name(&self) -> (r: &'static str)
        ensures
            r@ == type_name_of(self.tag()),
    {
        let t = self.ttype();
        if t == LUA_TNIL {
            "nil"
        } else if t == LUA_TBOOLEAN {
            "boolean"
        } else if t == LUA_TNUMBER {
            "number"
        } else if t == LUA_TSTRING {
            "string"
        } else if t == LUA_TTABLE {
            "table"
        } else if t == LUA_TFUNCTION {
            "function"
        } else if t == LUA_TLIGHTUSERDATA {
            "userdata"
        } else if t == LUA_TUSERDATA {
            "userdata"
        } else if t == LUA_TTHREAD {
            "thread"
        } else {
            "unknown"
        }
    }

    pub fn kind(&self) -> (r: LuaValueKind)
        ensures
            r == kind_of(self.tag()),
    {
        let t = self.ttype();
        if t == LUA_TNIL {
            LuaValueKind::Nil
        } else if t == LUA_TBOOLEAN {
            LuaValueKind::Boolean
        } else if t == LUA_TNUMBER {
            if self.ttisinteger() {
                LuaValueKind::Integer
            } else {
                LuaValueKind::Float
            }
        } else if t == LUA_TSTRING {
            if self.ttisbinary() {
                LuaValueKind::Binary
            } else {
                LuaValueKind::String
            }
        } else if t == LUA_TTABLE {
            LuaValueKind::Table
        } else if t == LUA_TFUNCTION {
            if self.ttiscfunction() {
                LuaValueKind::CFunction
            } else if self.is_cclosure() {
                LuaValueKind::CClosure
            } else if self.is_rclosure() {
                LuaValueKind::RClosure
            } else {
                LuaValueKind::Function
            }
        } else if t == LUA_TLIGHTUSERDATA || t == LUA_TUSERDATA {
            LuaValueKind::Userdata
        } else if t == LUA_TTHREAD {
            LuaValueKind::Thread
        } else {
            LuaValueKind::Nil
        }
    }
}

/// The object kind of a collectable tag, by its value kind; `None` for values that are not
/// objects.
pub open spec fn gc_kind_of(tt: u8) -> Option<GcObjectKind> {
    match kind_of(tt) {
        LuaValueKind::Table => Some(GcObjectKind::Table),
        LuaValueKind::Function => Some(GcObjectKind::Function),
        LuaValueKind::CClosure => Some(GcObjectKind::CClosure),
        LuaValueKind::RClosure => Some(GcObjectKind::RClosure),
        LuaValueKind::String => Some(GcObjectKind::String),
        LuaValueKind::Binary => Some(GcObjectKind::Binary),
        LuaValueKind::Thread => Some(GcObjectKind::Thread),
        LuaValueKind::Userdata => if tt == LUA_VUSERDATA {
            Some(GcObjectKind::Userdata)
        } else {
            None
        },
        _ => None,
    }
}

impl Default for LuaValue {
    /// Nil.
    fn default() -> (r: Self)
        ensures
            r.tag() == LUA_VNIL,
            r.payload() == 0,
    {
        Self::nil()
    }
}


// ============ Floats by their bit patterns (IEEE-754 binary64) ============
/// The biased exponent field (bits 52-62).
pub open spec fn f64_exponent(bits: u64) -> int {
    ((bits / 0x10_0000_0000_0000u64) % 0x800) as int
}

/// The fraction field (bits 0-51).
pub open spec fn f64_fraction(bits: u64) -> int {
    (bits % 0x10_0000_0000_0000u64) as int
}

/// The sign bit (bit 63).
pub open spec fn f64_negative(bits: u64) -> bool {
    bits >= 0x8000_0000_0000_0000u64
}

/// The pattern is a NaN: all-ones exponent and a nonzero fraction.
pub open spec fn f64_is_nan(bits: u64) -> bool {
    f64_exponent(bits) == 0x7FF && f64_fraction(bits) != 0
}

/// IEEE equality of two doubles: never for a NaN, `+0 == -0`, otherwise equal patterns.
pub open spec fn f64_equal(a: u64, b: u64) -> bool {
    !f64_is_nan(a) && !f64_is_nan(b) && (a == b || (a % 0x8000_0000_0000_0000u64 == 0 && b
        % 0x8000_0000_0000_0000u64 == 0))
}

/// The magnitude of the integer a double stands for, when it stands for one: `None` for
/// infinities, NaNs and values with a fractional part.
pub open spec fn f64_integer_magnitude(bits: u64) -> Option<int> {
    let e = f64_exponent(bits);
    let f = f64_fraction(bits);
    let mag = f + 0x10_0000_0000_0000int;
    if e == 0x7FF {
        None
    } else if e == 0 {
        if f == 0 { Some(0) } else { None }
    } else if e >= 1075 {
        Some(mag * pow2((e - 1075) as nat))
    } else if mag % (pow2((1075 - e) as nat) as int) == 0 {
        Some(mag / (pow2((1075 - e) as nat) as int))
    } else {
        None
    }
}

/// The integer a double stands for, when it stands for one.
pub open spec fn f64_integer_value(bits: u64) -> Option<int> {
    match f64_integer_magnitude(bits) {
        Some(x) => Some(if f64_negative(bits) { -x } else { x }),
        None => None,
    }
}

/// The fields of a double's bit pattern, as the bit operations extract them.
proof fn lemma_f64_field_bits(bits: u64)
    by (bit_vector)
    ensures
        (bits >> 52u64) & 0x7FFu64 == (bits / 0x10_0000_0000_0000u64) % 0x800,
        bits & 0xF_FFFF_FFFF_FFFFu64 == bits % 0x10_0000_0000_0000u64,
        ((bits >> 63u64) != 0) == (bits >= 0x8000_0000_0000_0000u64),
        (bits & 0x7FFF_FFFF_FFFF_FFFFu64 == 0) == (bits % 0x8000_0000_0000_0000u64 == 0),
{
}

/// The fields of a double's bit pattern, as the spec functions name them.
proof fn lemma_f64_fields(bits: u64)
    ensures
        (bits >> 52u64) & 0x7FFu64 == f64_exponent(bits),
        bits & 0xF_FFFF_FFFF_FFFFu64 == f64_fraction(bits),
        ((bits >> 63u64) != 0) == f64_negative(bits),
        (bits & 0x7FFF_FFFF_FFFF_FFFFu64 == 0) == (bits % 0x8000_0000_0000_0000u64 == 0),
{
    lemma_f64_field_bits(bits);
}

/// A NaN test on the bit pattern of a double.
pub fn f64_bits_is_nan(bits: u64) -> (r: bool)
    ensures
        r == f64_is_nan(bits),
{
    proof {
        lemma_f64_fields(bits);
    }
    ((bits >> 52) & 0x7FF) == 0x7FF && (bits & 0xF_FFFF_FFFF_FFFF) != 0
}

/// IEEE equality of two doubles given by their bit patterns.
pub fn f64_bits_equal(a: u64, b: u64) -> (r: bool)
    ensures
        r == f64_equal(a, b),
{
    proof {
        lemma_f64_fields(a);
        lemma_f64_fields(b);
    }
    if f64_bits_is_nan(a) || f64_bits_is_nan(b) {
        false
    } else {
        a == b || ((a & 0x7FFF_FFFF_FFFF_FFFF) == 0 && (b & 0x7FFF_FFFF_FFFF_FFFF) == 0)
    }
}

/// The `i64` a double stands for: `None` for infinities, NaNs, values with a fractional part
/// and integers out of the range of `i64`.
pub open spec fn f64_to_i64(bits: u64) -> Option<i64> {
    match f64_integer_value(bits) {
        Some(v) => if i64::MIN <= v <= i64::MAX {
            Some(v as i64)
        } else {
            None
        },
        None => None,
    }
}

/// Convert a double (by its bit pattern) to an integer when it stands exactly for one that
/// fits in `i64`.
#[verifier::spinoff_prover]
pub fn f64_bits_to_i64(bits: u64) -> (r: Option<i64>)
    ensures
        r == f64_to_i64(bits),
{
    proof {
        lemma_f64_fields(bits);
        vstd::arithmetic::power2::lemma2_to64();
        vstd::arithmetic::power2::lemma2_to64_rest();
    }
    let e: u64 = (bits >> 52) & 0x7FF;
    let m: u64 = bits & 0xF_FFFF_FFFF_FFFF;
    let neg: bool = (bits >> 63) != 0;
    if e == 0x7FF {
        return None;
    }
    if e == 0 {
        return if m == 0 {
            Some(0)
        } else {
            None
        };
    }
    let mag: u64 = m | 0x10_0000_0000_0000;
    assert(mag == m + 0x10_0000_0000_0000u64) by (bit_vector)
        requires
            m < 0x10_0000_0000_0000u64,
            mag == m | 0x10_0000_0000_0000u64,
    ;
    // The magnitude of the value, when it is an integer below 2^64.
    let v: u64;
    if e >= 1075 {
        let s: u64 = e - 1075;
        if s > 11 {
            proof {
                vstd::arithmetic::power2::lemma_pow2_strictly_increases(11, s as nat);
                assert(mag * pow2(s as nat) > 0x8000_0000_0000_0000int) by (nonlinear_arith)
                    requires
                        mag >= 0x10_0000_0000_0000int,
                        pow2(s as nat) > 2048,
                ;
            }
            return None;
        }
        proof {
            if s < 11 {
                vstd::arithmetic::power2::lemma_pow2_strictly_increases(s as nat, 11);
            }
            assert(mag * pow2(s as nat) <= u64::MAX) by (nonlinear_arith)
                requires
                    mag < 0x20_0000_0000_0000int,
                    pow2(s as nat) <= 2048,
            ;
            vstd::bits::lemma_u64_shl_is_mul(mag, s);
        }
        v = mag << s;
        assert(f64_integer_magnitude(bits) == Some(v as int));
    } else {
        let s: u64 = 1075 - e;
        let ghost d: int = pow2(s as nat) as int;
        if s > 52 {
            proof {
                if s > 53 {
                    vstd::arithmetic::power2::lemma_pow2_strictly_increases(53, s as nat);
                }
                vstd::arithmetic::div_mod::lemma_small_mod(mag as nat, d as nat);
            }
            return None;
        }
        let q: u64 = mag >> s;
        proof {
            vstd::bits::lemma_u64_shr_is_div(mag, s);
            vstd::arithmetic::power2::lemma_pow2_pos(s as nat);
            vstd::arithmetic::div_mod::lemma_fundamental_div_mod(mag as int, d);
            assert((q as int) * d <= mag) by (nonlinear_arith)
                requires
                    mag == d * (q as int) + (mag as int) % d,
                    (mag as int) % d >= 0,
            ;
            vstd::bits::lemma_u64_shl_is_mul(q, s);
        }
        if (q << s) != mag {
            return None;
        }
        v = q;
        assert(f64_integer_magnitude(bits) == Some(v as int));
    }
    if neg {
        if v > 0x8000_0000_0000_0000 {
            None
        } else {
            let r: i64 = 0i64.wrapping_sub(v as i64);
            assert(r as int == -(v as int)) by (bit_vector)
                requires
                    v <= 0x8000_0000_0000_0000u64,
                    r == 0i64.wrapping_sub(v as i64),
            ;
            Some(r)
        }
    } else {
        if v > 0x7FFF_FFFF_FFFF_FFFF {
            None
        } else {
            Some(v as i64)
        }
    }
}

/// Whether a double (by its bit pattern) stands exactly for the integer `i`: false for
/// infinities, NaNs and values with a fractional part.
pub fn lua_float_eq_int(bits: u64, i: i64) -> (r: bool)
    ensures
        r == (f64_integer_value(bits) == Some(i as int)),
{
    match f64_bits_to_i64(bits) {
        Some(v) => v == i,
        None => false,
    }
}


/// The magnitude of a finite double scaled to an integer: the value is
/// `±f64_scaled_magnitude / 2^f64_scale`.
pub open spec fn f64_scaled_magnitude(bits: u64) -> int {
    let e = f64_exponent(bits);
    let f = f64_fraction(bits);
    if e == 0 {
        f
    } else if e <= 1075 {
        f + 0x10_0000_0000_0000int
    } else {
        (f + 0x10_0000_0000_0000int) * pow2((e - 1075) as nat)
    }
}

/// The power of two a finite double's scaled magnitude is divided by.
pub open spec fn f64_scale(bits: u64) -> nat {
    let e = f64_exponent(bits);
    if e == 0 {
        1074
    } else if e <= 1075 {
        (1075 - e) as nat
    } else {
        0
    }
}

/// The signed scaled value of a finite double: the double is `f64_scaled(bits) / 2^f64_scale(bits)`.
pub open spec fn f64_scaled(bits: u64) -> int {
    if f64_negative(bits) {
        -f64_scaled_magnitude(bits)
    } else {
        f64_scaled_magnitude(bits)
    }
}

/// The pattern is an infinity.
pub open spec fn f64_is_infinite(bits: u64) -> bool {
    f64_exponent(bits) == 0x7FF && f64_fraction(bits) == 0
}

/// `i < f` for an integer and a double, exactly: false for NaN.
pub open spec fn int_lt_f64(i: int, bits: u64) -> bool {
    if f64_is_nan(bits) {
        false
    } else if f64_is_infinite(bits) {
        !f64_negative(bits)
    } else {
        i * pow2(f64_scale(bits)) < f64_scaled(bits)
    }
}

/// `f < i` for a double and an integer, exactly: false for NaN.
pub open spec fn f64_lt_int(bits: u64, i: int) -> bool {
    if f64_is_nan(bits) {
        false
    } else if f64_is_infinite(bits) {
        f64_negative(bits)
    } else {
        f64_scaled(bits) < i * pow2(f64_scale(bits))
    }
}

/// A double split for comparison with integers.
pub enum FloatParts {
    /// Not a number.
    NotANumber,
    /// An infinity.
    Infinite { negative: bool },
    /// A finite value of magnitude at least 2^64 (always an integer).
    Huge { negative: bool },
    /// A finite value of magnitude `whole + δ` with `0 <= δ < 1`; `fraction` is `δ > 0`.
    Finite { negative: bool, whole: u64, fraction: bool },
}

/// What a decomposition says of a double.
pub open spec fn parts_of(bits: u64, p: FloatParts) -> bool {
    let m = f64_scaled_magnitude(bits);
    let d = pow2(f64_scale(bits)) as int;
    match p {
        FloatParts::NotANumber => f64_is_nan(bits),
        FloatParts::Infinite { negative } => f64_is_infinite(bits) && negative == f64_negative(bits),
        FloatParts::Huge { negative } => {
            &&& !f64_is_nan(bits) && !f64_is_infinite(bits)
            &&& negative == f64_negative(bits)
            &&& f64_scale(bits) == 0
            &&& m >= 0x1_0000_0000_0000_0000int
        },
        FloatParts::Finite { negative, whole, fraction } => {
            &&& !f64_is_nan(bits) && !f64_is_infinite(bits)
            &&& negative == f64_negative(bits)
            &&& whole == m / d
            &&& fraction == (m % d != 0)
        },
    }
}

/// Split a double (by its bit pattern) into its whole part and whether it has a fraction.
pub fn f64_parts(bits: u64) -> (r: FloatParts)
    ensures
        parts_of(bits, r),
{
    proof {
        lemma_f64_fields(bits);
        vstd::arithmetic::power2::lemma2_to64();
        vstd::arithmetic::power2::lemma2_to64_rest();
    }
    let e: u64 = (bits >> 52) & 0x7FF;
    let m: u64 = bits & 0xF_FFFF_FFFF_FFFF;
    let negative: bool = (bits >> 63) != 0;
    if e == 0x7FF {
        if m != 0 {
            return FloatParts::NotANumber;
        } else {
            return FloatParts::Infinite { negative };
        }
    }
    let mag: u64 = if e == 0 {
        m
    } else {
        m | 0x10_0000_0000_0000
    };
    assert(e != 0 ==> mag == m + 0x10_0000_0000_0000u64) by (bit_vector)
        requires
            m < 0x10_0000_0000_0000u64,
            mag == (if e == 0 { m } else { m | 0x10_0000_0000_0000u64 }),
    ;
    assert(mag == f64_scaled_magnitude(bits) || e > 1075);
    assert(mag < 0x20_0000_0000_0000u64);
    if e > 1075 {
        let s: u64 = e - 1075;
        proof {
            vstd::arithmetic::power2::lemma_pow2_pos(s as nat);
        }
        if s > 11 {
            proof {
                if s > 12 {
                    vstd::arithmetic::power2::lemma_pow2_strictly_increases(12, s as nat);
                }
                assert(mag * pow2(s as nat) >= 0x1_0000_0000_0000_0000int) by (nonlinear_arith)
                    requires
                        mag >= 0x10_0000_0000_0000int,
                        pow2(s as nat) >= 4096,
                ;
            }
            return FloatParts::Huge { negative };
        }
        proof {
            if s < 11 {
                vstd::arithmetic::power2::lemma_pow2_strictly_increases(s as nat, 11);
            }
            assert(mag * pow2(s as nat) <= u64::MAX) by (nonlinear_arith)
                requires
                    mag < 0x20_0000_0000_0000int,
                    pow2(s as nat) <= 2048,
            ;
            vstd::bits::lemma_u64_shl_is_mul(mag, s);
        }
        let whole: u64 = mag << s;
        assert(f64_scale(bits) == 0);
        assert(pow2(0) == 1);
        return FloatParts::Finite { negative, whole, fraction: false };
    }
    let s: u64 = if e == 0 {
        1074
    } else {
        1075 - e
    };
    assert(s == f64_scale(bits));
    let ghost d: int = pow2(s as nat) as int;
    proof {
        vstd::arithmetic::power2::lemma_pow2_pos(s as nat);
    }
    if s > 53 {
        proof {
            vstd::arithmetic::power2::lemma_pow2_strictly_increases(53, s as nat);
            vstd::arithmetic::div_mod::lemma_small_mod(mag as nat, d as nat);
            vstd::arithmetic::div_mod::lemma_basic_div(mag as int, d);
        }
        return FloatParts::Finite { negative, whole: 0, fraction: mag != 0 };
    }
    let q: u64 = mag >> s;
    proof {
        vstd::bits::lemma_u64_shr_is_div(mag, s);
        vstd::arithmetic::div_mod::lemma_fundamental_div_mod(mag as int, d);
        assert((q as int) * d <= mag) by (nonlinear_arith)
            requires
                mag == d * (q as int) + (mag as int) % d,
                (mag as int) % d >= 0,
        ;
        vstd::bits::lemma_u64_shl_is_mul(q, s);
    }
    let fraction = (q << s) != mag;
    proof {
        assert((q as int) * d == d * (q as int)) by (nonlinear_arith);
        assert(mag == f64_scaled_magnitude(bits));
        assert(fraction == ((mag as int) % d != 0));
    }
    FloatParts::Finite { negative, whole: q, fraction }
}

// ============ Long-string hash ============
/// Starting state of the long-string hash: the length mixed with a fixed seed.
pub open spec fn long_hash_seed(len: nat) -> u64 {
    (len as u64) ^ 0x5bd1e995u64
}

/// One step of the long-string hash, taking in one byte.
pub open spec fn long_hash_step(h: u64, b: u8) -> u64 {
    h ^ vstd::wrapping::u64_specs::wrapping_add(
        vstd::wrapping::u64_specs::wrapping_add(h << 5u64, h >> 2u64),
        b as u64,
    )
}

/// The hash state after the first `n` bytes.
pub open spec fn long_hash_prefix(bytes: Seq<u8>, n: nat) -> u64
    decreases n,
{
    if n == 0 {
        long_hash_seed(bytes.len())
    } else {
        long_hash_step(long_hash_prefix(bytes, (n - 1) as nat), bytes[n - 1])
    }
}

/// The hash of a long string's bytes; never 0, which marks a hash not computed yet.
pub open spec fn long_string_hash(bytes: Seq<u8>) -> u64 {
    let h = long_hash_prefix(bytes, bytes.len());
    if h == 0 {
        1
    } else {
        h
    }
}

/// Hash the bytes of a long string.
pub fn compute_long_string_hash(bytes: &[u8]) -> (r: u64)
    ensures
        r == long_string_hash(bytes@),
        r != 0,
{
    let l = bytes.len();
    let mut h: u64 = (l as u64) ^ 0x5bd1e995;
    let mut i: usize = 0;
    while i < l
        invariant
            l == bytes@.len(),
            i <= l,
            h == long_hash_prefix(bytes@, i as nat),
        decreases l - i,
    {
        let b = bytes[i];
        h = h ^ ((h << 5).wrapping_add(h >> 2).wrapping_add(b as u64));
        i = i + 1;
    }
    if h == 0 {
        1
    } else {
        h
    }
}

// ============ Float hash ============
/// The bit mixing applied to a float's pattern before it is used as a hash (the splitmix64
/// finalizer).
pub open spec fn mix_float_bits(x: u64) -> u64 {
    let h1 = x ^ (x >> 30u64);
    let h2 = vstd::wrapping::u64_specs::wrapping_mul(h1, 0xbf58476d1ce4e5b9u64);
    let h3 = h2 ^ (h2 >> 27u64);
    let h4 = vstd::wrapping::u64_specs::wrapping_mul(h3, 0x94d049bb133111ebu64);
    h4 ^ (h4 >> 31u64)
}

/// Mix the bits of a float's pattern so that every output bit depends on every input bit.
pub fn mix_float_hash(x: u64) -> (r: u64)
    ensures
        r == mix_float_bits(x),
{
    let mut h = x;
    h = h ^ (h >> 30);
    h = h.wrapping_mul(0xbf58476d1ce4e5b9);
    h = h ^ (h >> 27);
    h = h.wrapping_mul(0x94d049bb133111eb);
    h = h ^ (h >> 31);
    h
}

/// Undoing the xor-shift steps of the float hash mixing.
proof fn lemma_unshift(x: u64)
    by (bit_vector)
    ensures
        (x ^ (x >> 30u64)) ^ ((x ^ (x >> 30u64)) >> 30u64) ^ ((x ^ (x >> 30u64)) >> 60u64) == x,
        (x ^ (x >> 27u64)) ^ ((x ^ (x >> 27u64)) >> 27u64) ^ ((x ^ (x >> 27u64)) >> 54u64) == x,
        (x ^ (x >> 31u64)) ^ ((x ^ (x >> 31u64)) >> 31u64) ^ ((x ^ (x >> 31u64)) >> 62u64) == x,
{
}

/// Multiplying by `c` and then by `c_inv`, with `c * c_inv == 1 + k * 2^64`, gives back the
/// number (wrapping arithmetic).
proof fn lemma_wrapping_mul_inverse(x: u64, c: u64, c_inv: u64, k: int)
    requires
        c as int * c_inv as int == 1 + k * 0x1_0000_0000_0000_0000int,
        k >= 0,
    ensures
        vstd::wrapping::u64_specs::wrapping_mul(
            vstd::wrapping::u64_specs::wrapping_mul(x, c),
            c_inv,
        ) == x,
{
    let m: int = 0x1_0000_0000_0000_0000int;
    let y = vstd::wrapping::u64_specs::wrapping_mul(x, c);
    assert(y as int == (x as int * c as int) % m);
    vstd::arithmetic::div_mod::lemma_mul_mod_noop_left(x as int * c as int, c_inv as int, m);
    assert(x as int * c as int * c_inv as int == m * (x as int * k) + x as int) by (nonlinear_arith)
        requires
            c as int * c_inv as int == 1 + k * m,
    ;
    vstd::arithmetic::div_mod::lemma_mod_multiples_vanish(x as int * k, x as int, m);
    vstd::arithmetic::div_mod::lemma_small_mod(x as nat, m as nat);
}

/// The float hash mixing is one-to-one: different float patterns never mix to the same
/// hash.
pub proof fn lemma_mix_float_bits_injective(a: u64, b: u64)
    ensures
        mix_float_bits(a) == mix_float_bits(b) ==> a == b,
{
    lemma_unmix(a);
    lemma_unmix(b);
}

/// The inverse of the float hash mixing.
pub open spec fn unmix_float_bits(h: u64) -> u64 {
    let h4 = h ^ (h >> 31u64) ^ (h >> 62u64);
    let h3 = vstd::wrapping::u64_specs::wrapping_mul(h4, 0x319642b2d24d8ec3u64);
    let h2 = h3 ^ (h3 >> 27u64) ^ (h3 >> 54u64);
    let h1 = vstd::wrapping::u64_specs::wrapping_mul(h2, 0x96de1b173f119089u64);
    h1 ^ (h1 >> 30u64) ^ (h1 >> 60u64)
}

/// Mixing then unmixing gives the pattern back.
proof fn lemma_unmix(x: u64)
    ensures
        unmix_float_bits(mix_float_bits(x)) == x,
{
    let h1 = x ^ (x >> 30u64);
    let h2 = vstd::wrapping::u64_specs::wrapping_mul(h1, 0xbf58476d1ce4e5b9u64);
    let h3 = h2 ^ (h2 >> 27u64);
    let h4 = vstd::wrapping::u64_specs::wrapping_mul(h3, 0x94d049bb133111ebu64);
    lemma_unshift(x);
    lemma_unshift(h2);
    lemma_unshift(h4);
    lemma_wrapping_mul_inverse(h3, 0x94d049bb133111ebu64, 0x319642b2d24d8ec3u64, 2077064247507883091);
    lemma_wrapping_mul_inverse(h1, 0xbf58476d1ce4e5b9u64, 0x96de1b173f119089u64, 8125545580553827436);
}

// ============ Raw equality ============
/// Raw equality of two values (no metamethods).
///
/// `a_data` and `b_data` are the bytes of the string or binary objects the values refer to;
/// they are only consulted when contents are compared: two long strings or two binaries at
/// different addresses, or a string against a binary.
pub open spec fn lua_raw_equal(a: LuaValue, b: LuaValue, a_data: Seq<u8>, b_data: Seq<u8>) -> bool {
    let ta = a.tag();
    let tb = b.tag();
    if ta == tb {
        if ta == LUA_VNUMFLT {
            f64_equal(a.payload(), b.payload())
        } else if a.payload() == b.payload() {
            true
        } else if ta == LUA_VLNGSTR || ta == LUA_VBINARY {
            a_data == b_data
        } else {
            false
        }
    } else if ta == LUA_VNUMINT && tb == LUA_VNUMFLT {
        f64_integer_value(b.payload()) == Some(a.payload() as i64 as int)
    } else if ta == LUA_VNUMFLT && tb == LUA_VNUMINT {
        f64_integer_value(a.payload()) == Some(b.payload() as i64 as int)
    } else if (ta == LUA_VSHRSTR || ta == LUA_VLNGSTR) && tb == LUA_VBINARY {
        a_data == b_data
    } else if ta == LUA_VBINARY && (tb == LUA_VSHRSTR || tb == LUA_VLNGSTR) {
        a_data == b_data
    } else {
        false
    }
}

/// The hash a value has in a native table. `text_hash` is the cached hash of the string the
/// value refers to, and `text` its bytes (both only read for strings).
pub open spec fn value_hash(v: LuaValue, text_hash: u64, text: Seq<u8>) -> u64 {
    let tt = v.tag();
    if tt == LUA_VSHRSTR {
        text_hash
    } else if tt == LUA_VLNGSTR {
        if text_hash != 0 {
            text_hash
        } else {
            long_string_hash(text)
        }
    } else if tt == LUA_VNUMFLT {
        mix_float_bits(v.payload())
    } else {
        v.payload()
    }
}

impl LuaValue {
    /// A float, given by its bit pattern.
    pub fn float_from_bits(bits: u64) -> (r: Self)
        ensures
            r.tag() == LUA_VNUMFLT,
            r.payload() == bits,
    {
        LuaValue { value: bits, tt: LUA_VNUMFLT }
    }

    /// The bit pattern of a float value.
    pub fn fltvalue_bits(&self) -> (r: u64)
        requires
            self.tag() == LUA_VNUMFLT,
        ensures
            r == self.payload(),
    {
        self.value
    }

    /// The value as an integer: integers as they are, floats that stand exactly for an
    /// integer in the range of `i64`; `None` otherwise.
    pub fn as_integer(&self) -> (r: Option<i64>)
        ensures
            self.tag() == LUA_VNUMINT ==> r == Some(self.payload() as i64),
            self.tag() == LUA_VNUMFLT ==> r == f64_to_i64(self.payload()),
            self.tag() != LUA_VNUMINT && self.tag() != LUA_VNUMFLT ==> r is None,
    {
        if self.tt == LUA_VNUMINT {
            Some(self.value as i64)
        } else if self.tt == LUA_VNUMFLT {
            f64_bits_to_i64(self.value)
        } else {
            None
        }
    }

    /// Raw equality with `other` (no metamethods). Numbers compare by value across integer
    /// and float, floats by IEEE equality, long strings and binaries by content, strings and
    /// binaries with each other by content, everything else by identity. `self_data` and
    /// `other_data` are the bytes of the string or binary objects the two values refer to.
    pub fn raw_equals(&self, other: &LuaValue, self_data: &[u8], other_data: &[u8]) -> (r: bool)
        ensures
            r == lua_raw_equal(*self, *other, self_data@, other_data@),
    {
        let tt = self.tt;
        let other_tt = other.tt;
        if tt == other_tt {
            if tt == LUA_VNUMFLT {
                return f64_bits_equal(self.value, other.value);
            }
            if self.value == other.value {
                return true;
            }
            if tt == LUA_VLNGSTR || tt == LUA_VBINARY {
                return bytes_equal(self_data, other_data);
            }
            false
        } else if tt == LUA_VNUMINT && other_tt == LUA_VNUMFLT {
            lua_float_eq_int(other.value, self.value as i64)
        } else if tt == LUA_VNUMFLT && other_tt == LUA_VNUMINT {
            lua_float_eq_int(self.value, other.value as i64)
        } else if (tt == LUA_VSHRSTR || tt == LUA_VLNGSTR) && other_tt == LUA_VBINARY {
            bytes_equal(self_data, other_data)
        } else if tt == LUA_VBINARY && (other_tt == LUA_VSHRSTR || other_tt == LUA_VLNGSTR) {
            bytes_equal(self_data, other_data)
        } else {
            false
        }
    }

    /// The hash of the value in a native table. `string` is the string object the value
    /// refers to; it is only used when the value is a string, and a long string computes and
    /// caches its hash on first use.
    pub fn hash_value(&self, string: &mut LuaString) -> (r: u64)
        ensures
            r == value_hash(*self, old(string).hash, encode_utf8(old(string).str.chars())),
            final(string).next == old(string).next,
            final(string).str == old(string).str,
            final(string).hash == (if self.tag() == LUA_VLNGSTR && old(string).hash == 0 {
                r
            } else {
                old(string).hash
            }),
    {
        let tt = self.tt;
        if tt == LUA_VSHRSTR {
            return string.hash;
        }
        if tt == LUA_VLNGSTR {
            return string.hash_or_compute();
        }
        if tt == LUA_VNUMFLT {
            return mix_float_hash(self.value);
        }
        self.value
    }
}

/// Byte-wise equality of two slices.
pub fn bytes_equal(a: &[u8], b: &[u8]) -> (r: bool)
    ensures
        r == (a@ == b@),
{
    if a.len() != b.len() {
        return false;
    }
    let mut i: usize = 0;
    while i < a.len()
        invariant
            a@.len() == b@.len(),
            i <= a@.len(),
            forall|k: int| 0 <= k < i ==> a@[k] == b@[k],
        decreases a@.len() - i,
    {
        if a[i] != b[i] {
            return false;
        }
        i = i + 1;
    }
    assert(a@ =~= b@);
    true
}


/// Raw equality is symmetric.
pub proof fn lemma_raw_equal_symmetric(a: LuaValue, b: LuaValue, a_data: Seq<u8>, b_data: Seq<u8>)
    ensures
        lua_raw_equal(a, b, a_data, b_data) == lua_raw_equal(b, a, b_data, a_data),
{
}

/// Every value is raw-equal to itself, except a float NaN.
pub proof fn lemma_raw_equal_reflexive(a: LuaValue, data: Seq<u8>)
    ensures
        lua_raw_equal(a, a, data, data) == !(a.tag() == LUA_VNUMFLT && f64_is_nan(a.payload())),
{
}

/// An integer and a float are raw-equal exactly when converting the float to an integer
/// gives that integer.
pub proof fn lemma_raw_equal_int_float(a: LuaValue, b: LuaValue, a_data: Seq<u8>, b_data: Seq<u8>)
    requires
        a.tag() == LUA_VNUMINT,
        b.tag() == LUA_VNUMFLT,
    ensures
        lua_raw_equal(a, b, a_data, b_data) == (f64_to_i64(b.payload()) == Some(
            a.payload() as i64,
        )),
{
}

/// Long strings are compared by content: two long strings are raw-equal exactly when their
/// bytes are equal, wherever they are stored.
pub proof fn lemma_raw_equal_long_strings(a: LuaValue, b: LuaValue, a_data: Seq<u8>, b_data: Seq<u8>)
    requires
        a.tag() == LUA_VLNGSTR,
        b.tag() == LUA_VLNGSTR,
    ensures
        a_data == b_data ==> lua_raw_equal(a, b, a_data, b_data),
        a.payload() != b.payload() ==> (lua_raw_equal(a, b, a_data, b_data) <==> a_data == b_data),
{
}

// ============ Display ============
/// The lowercase hexadecimal digit for `d < 16`.
pub open spec fn hex_char(d: nat) -> u8 {
    if d < 10 {
        (48 + d) as u8
    } else {
        (87 + d) as u8
    }
}

/// The lowercase hexadecimal digits of a natural number, without leading zeros.
pub open spec fn hex_digits(n: nat) -> Seq<u8>
    decreases n,
{
    if n < 16 {
        seq![hex_char(n)]
    } else {
        hex_digits(n / 16).push(hex_char(n % 16))
    }
}

/// The decimal digits of a natural number, without leading zeros.
pub open spec fn dec_digits(n: nat) -> Seq<u8>
    decreases n,
{
    if n < 10 {
        seq![(48 + n) as u8]
    } else {
        dec_digits(n / 10).push((48 + n % 10) as u8)
    }
}

/// The decimal text of an integer.
pub open spec fn dec_text(i: int) -> Seq<u8> {
    if i < 0 {
        seq![45u8] + dec_digits((-i) as nat)
    } else {
        dec_digits(i as nat)
    }
}

/// Bytes shown as two hexadecimal digits each, separated by spaces.
pub open spec fn hex_bytes_text(data: Seq<u8>) -> Seq<u8>
    decreases data.len(),
{
    if data.len() == 0 {
        Seq::empty()
    } else {
        let last = data.last();
        let pair = seq![hex_char((last / 16) as nat), hex_char((last % 16) as nat)];
        if data.len() == 1 {
            pair
        } else {
            hex_bytes_text(data.drop_last()) + seq![32u8] + pair
        }
    }
}

/// What `tostring`-style display shows for a value. `text` is the string's text for
/// strings, the bytes for binaries and the formatted number for floats; other values
/// ignore it.
pub open spec fn display_of(v: LuaValue, text: Seq<u8>) -> Seq<u8> {
    match kind_of(v.tag()) {
        LuaValueKind::Nil => "nil"@.map_values(|c: char| c as u8),
        LuaValueKind::Boolean => if v.tag() == LUA_VTRUE {
            "true"@.map_values(|c: char| c as u8)
        } else {
            "false"@.map_values(|c: char| c as u8)
        },
        LuaValueKind::Integer => dec_text(v.payload() as i64 as int),
        LuaValueKind::Float => text,
        LuaValueKind::String => text,
        LuaValueKind::Table => "table: 0x"@.map_values(|c: char| c as u8) + hex_digits(
            v.payload() as nat,
        ),
        LuaValueKind::Function | LuaValueKind::CFunction | LuaValueKind::CClosure
        | LuaValueKind::RClosure => "function: 0x"@.map_values(|c: char| c as u8) + hex_digits(
            v.payload() as nat,
        ),
        LuaValueKind::Userdata => "userdata: 0x"@.map_values(|c: char| c as u8) + hex_digits(
            v.payload() as nat,
        ),
        LuaValueKind::Thread => "thread: 0x"@.map_values(|c: char| c as u8) + hex_digits(
            v.payload() as nat,
        ),
        LuaValueKind::Binary => "binary(len="@.map_values(|c: char| c as u8) + dec_digits(
            text.len(),
        ) + ", ["@.map_values(|c: char| c as u8) + hex_bytes_text(text) + "])"@.map_values(
            |c: char| c as u8,
        ),
    }
}

/// The bytes of an ASCII text.
pub open spec fn ascii_bytes(s: Seq<char>) -> Seq<u8> {
    s.map_values(|c: char| c as u8)
}

/// A table, function, userdata or thread displays as its type name, `": 0x"` and its address
/// in hexadecimal.
pub proof fn lemma_display_names_type(v: LuaValue, text: Seq<u8>)
    requires
        v.tag() % 16 == LUA_TTABLE || v.tag() % 16 == LUA_TFUNCTION || v.tag() % 16
            == LUA_TLIGHTUSERDATA || v.tag() % 16 == LUA_TUSERDATA || v.tag() % 16 == LUA_TTHREAD,
    ensures
        display_of(v, text) == ascii_bytes(type_name_of(v.tag())) + ascii_bytes(": 0x"@)
            + hex_digits(v.payload() as nat),
{
    reveal_strlit("table");
    reveal_strlit("function");
    reveal_strlit("userdata");
    reveal_strlit("thread");
    reveal_strlit(": 0x");
    reveal_strlit("table: 0x");
    reveal_strlit("function: 0x");
    reveal_strlit("userdata: 0x");
    reveal_strlit("thread: 0x");
    let h = hex_digits(v.payload() as nat);
    let t = v.tag() % 16;
    if t == LUA_TTABLE {
        assert(ascii_bytes("table: 0x"@) =~= ascii_bytes("table"@) + ascii_bytes(": 0x"@));
    } else if t == LUA_TFUNCTION {
        assert(ascii_bytes("function: 0x"@) =~= ascii_bytes("function"@) + ascii_bytes(": 0x"@));
    } else if t == LUA_TTHREAD {
        assert(ascii_bytes("thread: 0x"@) =~= ascii_bytes("thread"@) + ascii_bytes(": 0x"@));
    } else {
        assert(ascii_bytes("userdata: 0x"@) =~= ascii_bytes("userdata"@) + ascii_bytes(": 0x"@));
    }
}

/// Append the bytes of an ASCII literal.
fn push_ascii(buf: &mut Vec<u8>, s: &str)
    requires
        is_ascii_chars(s@),
    ensures
        final(buf)@ == old(buf)@ + s@.map_values(|c: char| c as u8),
{
    let bytes = s.as_bytes();
    proof {
        vstd::utf8::is_ascii_chars_encode_utf8(s@);
    }
    let mut i: usize = 0;
    while i < bytes.len()
        invariant
            bytes@ == encode_utf8(s@),
            bytes@.len() == s@.len(),
            forall|k: int| 0 <= k < s@.len() ==> s@[k] as u8 == encode_utf8(s@)[k],
            i <= bytes@.len(),
            buf@ == old(buf)@ + s@.map_values(|c: char| c as u8).subrange(0, i as int),
        decreases bytes@.len() - i,
    {
        buf.push(bytes[i]);
        i = i + 1;
        assert(buf@ =~= old(buf)@ + s@.map_values(|c: char| c as u8).subrange(0, i as int));
    }
    assert(s@.map_values(|c: char| c as u8).subrange(0, i as int) =~= s@.map_values(
        |c: char| c as u8,
    ));
}

/// Append the hexadecimal digits of `n`.
fn push_hex(buf: &mut Vec<u8>, n: u64)
    ensures
        final(buf)@ == old(buf)@ + hex_digits(n as nat),
    decreases n,
{
    if n >= 16 {
        push_hex(buf, n / 16);
    }
    let d = (n % 16) as u8;
    buf.push(if d < 10 {
        48 + d
    } else {
        87 + d
    });
    assert(buf@ =~= old(buf)@ + hex_digits(n as nat));
}

/// Append the decimal digits of `n`.
fn push_dec(buf: &mut Vec<u8>, n: u64)
    ensures
        final(buf)@ == old(buf)@ + dec_digits(n as nat),
    decreases n,
{
    if n >= 10 {
        push_dec(buf, n / 10);
    }
    buf.push(48 + (n % 10) as u8);
    assert(buf@ =~= old(buf)@ + dec_digits(n as nat));
}

/// Append bytes as two hexadecimal digits each, separated by spaces.
fn push_hex_bytes(buf: &mut Vec<u8>, data: &[u8])
    ensures
        final(buf)@ == old(buf)@ + hex_bytes_text(data@),
{
    let mut i: usize = 0;
    while i < data.len()
        invariant
            i <= data@.len(),
            buf@ == old(buf)@ + hex_bytes_text(data@.subrange(0, i as int)),
        decreases data@.len() - i,
    {
        if i > 0 {
            buf.push(32);
        }
        let b = data[i];
        let hi = b / 16;
        let lo = b % 16;
        buf.push(if hi < 10 {
            48 + hi
        } else {
            87 + hi
        });
        buf.push(if lo < 10 {
            48 + lo
        } else {
            87 + lo
        });
        proof {
            let pre = data@.subrange(0, i as int);
            let next = data@.subrange(0, i + 1);
            assert(next.drop_last() =~= pre);
            assert(next.last() == b);
        }
        i = i + 1;
        assert(buf@ =~= old(buf)@ + hex_bytes_text(data@.subrange(0, i as int)));
    }
    assert(data@.subrange(0, i as int) =~= data@);
}

impl LuaValue {
    /// The text `tostring` shows for the value: `nil`, `true`/`false`, integers in decimal,
    /// strings and floats as given by `text` (the string's text, the formatted number),
    /// objects as their kind and hexadecimal address, binaries as their length and bytes.
    pub fn display_bytes(&self, text: &[u8]) -> (r: Vec<u8>)
        ensures
            r@ == display_of(*self, text@),
    {
        let mut buf: Vec<u8> = Vec::new();
        match self.kind() {
            LuaValueKind::Nil => {
                proof {
                    reveal_strlit("nil");
                }
                push_ascii(&mut buf, "nil");
            },
            LuaValueKind::Boolean => {
                if self.tt == LUA_VTRUE {
                    proof {
                        reveal_strlit("true");
                    }
                    push_ascii(&mut buf, "true");
                } else {
                    proof {
                        reveal_strlit("false");
                    }
                    push_ascii(&mut buf, "false");
                }
            },
            LuaValueKind::Integer => {
                let i = self.value as i64;
                if i < 0 {
                    buf.push(45);
                    let mag: u64 = 0u64.wrapping_sub(i as u64);
                    assert(mag as int == -(i as int)) by (bit_vector)
                        requires
                            i < 0,
                            mag == 0u64.wrapping_sub(i as u64),
                    ;
                    push_dec(&mut buf, mag);
                } else {
                    push_dec(&mut buf, i as u64);
                }
            },
            LuaValueKind::Float | LuaValueKind::String => {
                append_slice(&mut buf, text);
            },
            LuaValueKind::Table => {
                proof {
                    reveal_strlit("table: 0x");
                }
                push_ascii(&mut buf, "table: 0x");
                push_hex(&mut buf, self.value);
            },
            LuaValueKind::Function | LuaValueKind::CFunction | LuaValueKind::CClosure
            | LuaValueKind::RClosure => {
                proof {
                    reveal_strlit("function: 0x");
                }
                push_ascii(&mut buf, "function: 0x");
                push_hex(&mut buf, self.value);
            },
            LuaValueKind::Userdata => {
                proof {
                    reveal_strlit("userdata: 0x");
                }
                push_ascii(&mut buf, "userdata: 0x");
                push_hex(&mut buf, self.value);
            },
            LuaValueKind::Thread => {
                proof {
                    reveal_strlit("thread: 0x");
                }
                push_ascii(&mut buf, "thread: 0x");
                push_hex(&mut buf, self.value);
            },
            LuaValueKind::Binary => {
                proof {
                    reveal_strlit("binary(len=");
                }
                push_ascii(&mut buf, "binary(len=");
                push_dec(&mut buf, text.len() as u64);
                proof {
                    reveal_strlit(", [");
                }
                push_ascii(&mut buf, ", [");
                push_hex_bytes(&mut buf, text);
                proof {
                    reveal_strlit("])");
                }
                push_ascii(&mut buf, "])");
            },
        }
        buf
    }
}

/// Append `bytes` to `buf`.
fn append_slice(buf: &mut Vec<u8>, bytes: &[u8])
    ensures
        final(buf)@ == old(buf)@ + bytes@,
{
    let mut i: usize = 0;
    while i < bytes.len()
        invariant
            i <= bytes@.len(),
            buf@ == old(buf)@ + bytes@.subrange(0, i as int),
        decreases bytes@.len() - i,
    {
        buf.push(bytes[i]);
        i = i + 1;
        assert(buf@ =~= old(buf)@ + bytes@.subrange(0, i as int));
    }
    assert(bytes@.subrange(0, bytes@.len() as int) =~= bytes@);
}

} // verus!
