pub mod lua_table;
pub mod lua_value;

use smol_str::SmolStr;
use vstd::prelude::*;
use vstd::utf8::encode_utf8;

use crate::gc::gc_object::UpvaluePtr;
use crate::lua_value::lua_value::{
    bytes_equal, compute_long_string_hash, long_string_hash, LuaValue, LUA_CCLOSURE, LUA_VABSTKEY,
    LUA_VBINARY, LUA_VEMPTY, LUA_VFALSE, LUA_VFUNCTION, LUA_VLCF, LUA_VLIGHTUSERDATA,
    LUA_VLNGSTR, LUA_VNIL, LUA_VNUMFLT, LUA_VNUMINT, LUA_VSHRSTR, LUA_VTABLE, LUA_VTHREAD,
    LUA_VTRUE, LUA_VUSERDATA,
};

verus! {

/// Strings up to this many bytes are short (interned).
pub const SHORT_STRING_LIMIT: usize = 40;

#[verifier::external_type_specification]
#[verifier::external_body]
pub struct ExSmolStr(SmolStr);

/// The characters that a `SmolStr` holds.
pub uninterp spec fn smol_chars(s: SmolStr) -> Seq<char>;

/// `SmolStr::as_str`: the text of the string.
#[verifier::external_body]
fn smol_as_str(s: &SmolStr) -> (r: &str)
    ensures
        r@ == smol_chars(*s),
{
    s.as_str()
}

/// `SmolStr::len`: the length of the text in bytes (UTF-8).
#[verifier::external_body]
fn smol_len(s: &SmolStr) -> (r: usize)
    ensures
        r == encode_utf8(smol_chars(*s)).len(),
{
    s.len()
}

/// `core::slice::from_ref`: a slice of length one holding the referenced value.
pub assume_specification<T>[ core::slice::from_ref::<T> ](s: &T) -> (r: &[T])
    ensures
        r@ == seq![*s],
;

/// `core::slice::from_mut`: a mutable slice of length one over the referenced value.
pub assume_specification<T>[ core::slice::from_mut::<T> ](s: &mut T) -> (r: &mut [T])
    ensures
        r@ == seq![*old(s)],
        final(r)@.len() == 1,
        *final(s) == final(r)@[0],
;

/// Storage of a string's text: short strings in a `SmolStr`, long strings in an owned buffer.
pub enum LuaStrRepr {
    Smol(SmolStr),
    Owned(String),
}

impl LuaStrRepr {
    /// The characters of the text.
    pub open spec fn chars(&self) -> Seq<char> {
        match self {
            LuaStrRepr::Smol(s) => smol_chars(*s),
            LuaStrRepr::Owned(s) => s@,
        }
    }

    pub fn as_str(&self) -> (r: &str)
        ensures
            r@ == self.chars(),
    {
        match self {
            LuaStrRepr::Smol(s) => smol_as_str(s),
            LuaStrRepr::Owned(s) => s.as_str(),
        }
    }

    /// Length of the text in bytes.
    pub fn len(&self) -> (r: usize)
        ensures
            r == encode_utf8(self.chars()).len(),
    {
        match self {
            LuaStrRepr::Smol(s) => smol_len(s),
            LuaStrRepr::Owned(s) => s.as_str().as_bytes().len(),
        }
    }

    /// The UTF-8 bytes of the text.
    pub fn as_bytes(&self) -> (r: &[u8])
        ensures
            r@ == encode_utf8(self.chars()),
    {
        self.as_str().as_bytes()
    }
}

impl PartialEq for LuaStrRepr {
    /// Equal text.
    fn eq(&self, other: &Self) -> (r: bool) {
        bytes_equal(self.as_bytes(), other.as_bytes())
    }
}

impl vstd::std_specs::cmp::PartialEqSpecImpl for LuaStrRepr {
    open spec fn obeys_eq_spec() -> bool {
        true
    }

    open spec fn eq_spec(&self, other: &LuaStrRepr) -> bool {
        encode_utf8(self.chars()) == encode_utf8(other.chars())
    }
}

impl Eq for LuaStrRepr {

}

/// A string object's payload: cached hash, link in the intern chain, and the text.
pub struct LuaString {
    pub hash: u64,
    /// Address of the next string in the same intern chain (0 at the end of the chain).
    pub next: u64,
    pub str: LuaStrRepr,
}

impl LuaString {
    /// A string with the given text and hash, not linked to any chain.
    pub fn new(s: LuaStrRepr, hash: u64) -> (r: Self)
        ensures
            r.hash == hash,
            r.next == 0,
            r.str == s,
    {
        LuaString { hash, next: 0, str: s }
    }

    pub fn as_str(&self) -> (r: &str)
        ensures
            r@ == self.str.chars(),
    {
        self.str.as_str()
    }

    /// The cached hash; when none is cached yet (0), the long-string hash of the text is
    /// computed and cached.
    pub fn hash_or_compute(&mut self) -> (r: u64)
        ensures
            r == (if old(self).hash != 0 {
                old(self).hash
            } else {
                long_string_hash(encode_utf8(old(self).str.chars()))
            }),
            r != 0,
            final(self).hash == r,
            final(self).next == old(self).next,
            final(self).str == old(self).str,
    {
        if self.hash != 0 {
            return self.hash;
        }
        let h = compute_long_string_hash(self.str.as_bytes());
        self.hash = h;
        h
    }

    /// At most `SHORT_STRING_LIMIT` bytes long.
    pub fn is_short(&self) -> (r: bool)
        ensures
            r == (encode_utf8(self.str.chars()).len() <= SHORT_STRING_LIMIT),
    {
        self.str.len() <= SHORT_STRING_LIMIT
    }

    /// More than `SHORT_STRING_LIMIT` bytes long.
    pub fn is_long(&self) -> (r: bool)
        ensures
            r == (encode_utf8(self.str.chars()).len() > SHORT_STRING_LIMIT),
    {
        self.str.len() > SHORT_STRING_LIMIT
    }
}

impl PartialEq for LuaString {
    /// Same cached hash and same text.
    fn eq(&self, other: &Self) -> (r: bool) {
        self.hash == other.hash && bytes_equal(self.str.as_bytes(), other.str.as_bytes())
    }
}

impl vstd::std_specs::cmp::PartialEqSpecImpl for LuaString {
    open spec fn obeys_eq_spec() -> bool {
        true
    }

    open spec fn eq_spec(&self, other: &LuaString) -> bool {
        self.hash == other.hash && encode_utf8(self.str.chars()) == encode_utf8(other.str.chars())
    }
}

impl Eq for LuaString {

}

/// Where an upvalue's current value lives.
#[derive(Clone, Copy, PartialEq, Eq, Structural)]
pub enum UpvalueState {
    /// In a stack slot of the owning thread.
    Open,
    /// Created closed, not yet bound to its own storage.
    Unbound,
    /// In the upvalue's own storage.
    Closed,
}

/// Runtime upvalue: open while its variable lives in a stack slot, closed once the value
/// has been moved into the upvalue itself.
pub struct LuaUpvalue {
    state: UpvalueState,
    closed_value: LuaValue,
    stack_index: usize,
}

impl LuaUpvalue {
    pub closed spec fn state_spec(&self) -> UpvalueState {
        self.state
    }

    pub closed spec fn closed_value_spec(&self) -> LuaValue {
        self.closed_value
    }

    pub closed spec fn stack_index_spec(&self) -> usize {
        self.stack_index
    }

    /// An open upvalue for the given stack slot.
    pub fn new_open(stack_index: usize) -> (r: Self)
        ensures
            r.state_spec() == UpvalueState::Open,
            r.stack_index_spec() == stack_index,
            r.closed_value_spec().tag() == 0,
    {
        LuaUpvalue { state: UpvalueState::Open, closed_value: LuaValue::nil(), stack_index }
    }

    /// A closed upvalue holding `value`; it must be bound with `fix_closed_ptr` once it has
    /// its final place.
    pub fn new_closed(value: LuaValue) -> (r: Self)
        ensures
            r.state_spec() == UpvalueState::Unbound,
            r.closed_value_spec() == value,
            r.stack_index_spec() == 0,
    {
        LuaUpvalue { state: UpvalueState::Unbound, closed_value: value, stack_index: 0 }
    }

    /// Bind a newly created closed upvalue to its own storage; open upvalues are unchanged.
    pub fn fix_closed_ptr(&mut self)
        ensures
            final(self).state_spec() == (if old(self).state_spec() == UpvalueState::Unbound {
                UpvalueState::Closed
            } else {
                old(self).state_spec()
            }),
            final(self).closed_value_spec() == old(self).closed_value_spec(),
            final(self).stack_index_spec() == old(self).stack_index_spec(),
    {
        if self.state == UpvalueState::Unbound {
            self.state = UpvalueState::Closed;
        }
    }

    /// Open: the current value is not in the upvalue's own storage.
    pub fn is_open(&self) -> (r: bool)
        ensures
            r == (self.state_spec() != UpvalueState::Closed),
    {
        self.state != UpvalueState::Closed
    }

    pub fn get_stack_index(&self) -> (r: usize)
        ensures
            r == self.stack_index_spec(),
    {
        self.stack_index
    }

    /// Close the upvalue: the value is copied from the stack into the upvalue's storage.
    pub fn close(&mut self, stack_value: LuaValue)
        ensures
            final(self).state_spec() == UpvalueState::Closed,
            final(self).closed_value_spec() == stack_value,
            final(self).stack_index_spec() == old(self).stack_index_spec(),
    {
        self.closed_value = stack_value;
        self.state = UpvalueState::Closed;
    }

    /// Where the upvalue's value lives can be read: the upvalue is bound, and an open
    /// upvalue's slot lies in the stack.
    pub open spec fn readable_in(&self, stack: Seq<LuaValue>) -> bool {
        &&& self.state_spec() != UpvalueState::Unbound
        &&& self.state_spec() == UpvalueState::Open ==> self.stack_index_spec() < stack.len()
    }

    /// The current value: the stack slot while open, the upvalue's own storage once closed.
    pub open spec fn current_value(&self, stack: Seq<LuaValue>) -> LuaValue {
        if self.state_spec() == UpvalueState::Open {
            stack[self.stack_index_spec() as int]
        } else {
            self.closed_value_spec()
        }
    }

    /// The current value of the upvalue; `stack` is the stack of the thread that owns its
    /// slot while it is open.
    pub fn get_value(&self, stack: &[LuaValue]) -> (r: LuaValue)
        requires
            self.readable_in(stack@),
        ensures
            r == self.current_value(stack@),
    {
        if self.state == UpvalueState::Open {
            stack[self.stack_index]
        } else {
            self.closed_value
        }
    }

    /// Store a new current value: into the stack slot while open, into the upvalue's own
    /// storage once closed. A later read gives the value back, and nothing else changes.
    pub fn set_value(&mut self, stack: &mut Vec<LuaValue>, val: LuaValue)
        requires
            old(self).readable_in(old(stack)@),
        ensures
            final(self).readable_in(final(stack)@),
            final(self).current_value(final(stack)@) == val,
            final(self).state_spec() == old(self).state_spec(),
            final(self).stack_index_spec() == old(self).stack_index_spec(),
            old(self).state_spec() == UpvalueState::Open ==> {
                &&& final(stack)@ == old(stack)@.update(old(self).stack_index_spec() as int, val)
                &&& final(self).closed_value_spec() == old(self).closed_value_spec()
            },
            old(self).state_spec() == UpvalueState::Closed ==> final(stack)@ == old(stack)@,
    {
        if self.state == UpvalueState::Open {
            stack.set(self.stack_index, val);
        } else {
            self.closed_value = val;
        }
    }

    /// Whether a tag is one a live value can carry (used to detect reads through a stale
    /// slot).
    pub fn is_valid_tt(tt: u8) -> (r: bool)
        ensures
            r == (tt == LUA_VNIL || tt == LUA_VEMPTY || tt == LUA_VABSTKEY || tt == LUA_VFALSE
                || tt == LUA_VTRUE || tt == LUA_VNUMINT || tt == LUA_VNUMFLT || tt == LUA_VSHRSTR
                || tt == LUA_VLNGSTR || tt == LUA_VBINARY || tt == LUA_VTABLE || tt
                == LUA_VFUNCTION || tt == LUA_CCLOSURE || tt == LUA_VLCF || tt
                == LUA_VLIGHTUSERDATA || tt == LUA_VUSERDATA || tt == LUA_VTHREAD),
    {
        tt == LUA_VNIL || tt == LUA_VEMPTY || tt == LUA_VABSTKEY || tt == LUA_VFALSE || tt
            == LUA_VTRUE || tt == LUA_VNUMINT || tt == LUA_VNUMFLT || tt == LUA_VSHRSTR || tt
            == LUA_VLNGSTR || tt == LUA_VBINARY || tt == LUA_VTABLE || tt == LUA_VFUNCTION || tt
            == LUA_CCLOSURE || tt == LUA_VLCF || tt == LUA_VLIGHTUSERDATA || tt == LUA_VUSERDATA
            || tt == LUA_VTHREAD
    }

    /// The stored value of a closed upvalue; `None` while open.
    pub fn get_closed_value(&self) -> (r: Option<&LuaValue>)
        ensures
            r == (if self.state_spec() == UpvalueState::Closed {
                Some(&self.closed_value_spec())
            } else {
                None
            }),
    {
        if !self.is_open() {
            Some(&self.closed_value)
        } else {
            None
        }
    }
}

/// Payload type of Lua function objects (closures over a compiled prototype).
pub struct LuaFunction {
    _opaque: (),
}

/// Payload type of C closure objects.
pub struct CClosureFunction {
    _opaque: (),
}

/// Payload type of Rust closure objects.
pub struct RClosureFunction {
    _opaque: (),
}

/// Payload type of full userdata objects.
pub struct LuaUserdata {
    _opaque: (),
}

/// Upvalue descriptor of a compiled function.
pub struct UpvalueDesc {
    /// Upvalue name.
    pub name: String,
    /// Captures a local of the enclosing function (otherwise one of its upvalues).
    pub is_local: bool,
    /// Index in the enclosing function's registers or upvalue list.
    pub index: u32,
}

/// Debug information of a local variable.
pub struct LocVar {
    pub name: String,
    /// First instruction where the variable is active.
    pub startpc: u32,
    /// First instruction where the variable is dead.
    pub endpc: u32,
}

/// Upvalue pointers of a closure, inline for the common cases of none and one.
pub enum UpvalueStore {
    Empty,
    One(UpvaluePtr),
    Many(Vec<UpvaluePtr>),
}

impl UpvalueStore {
    /// The pointers held.
    pub open spec fn ptrs(&self) -> Seq<UpvaluePtr> {
        match self {
            UpvalueStore::Empty => Seq::empty(),
            UpvalueStore::One(p) => seq![*p],
            UpvalueStore::Many(v) => v@,
        }
    }

    pub fn from_single(ptr: UpvaluePtr) -> (r: Self)
        ensures
            r.ptrs() == seq![ptr],
    {
        UpvalueStore::One(ptr)
    }

    /// Store the given pointers: none and one are kept inline.
    pub fn from_vec(v: Vec<UpvaluePtr>) -> (r: Self)
        ensures
            r.ptrs() == v@,
            v@.len() == 0 ==> r is Empty,
            v@.len() == 1 ==> r is One,
    {
        let n = v.len();
        if n == 0 {
            assert(v@ =~= Seq::<UpvaluePtr>::empty());
            UpvalueStore::Empty
        } else if n == 1 {
            let p = v[0];
            assert(v@ =~= seq![p]);
            UpvalueStore::One(p)
        } else {
            UpvalueStore::Many(v)
        }
    }

    /// The pointers, as a slice.
    pub fn as_slice(&self) -> (r: &[UpvaluePtr])
        ensures
            r@ == self.ptrs(),
    {
        match self {
            UpvalueStore::Empty => {
                let e: &[UpvaluePtr] = &[];
                assert(e@ =~= Seq::<UpvaluePtr>::empty());
                e
            },
            UpvalueStore::One(p) => core::slice::from_ref(p),
            UpvalueStore::Many(b) => b.as_slice(),
        }
    }

    /// The pointers, as a mutable slice; what is written through it lands in the store.
    pub fn as_mut_slice(&mut self) -> (r: &mut [UpvaluePtr])
        ensures
            r@ == old(self).ptrs(),
            final(self).ptrs() == final(r)@,
    {
        match self {
            UpvalueStore::Empty => {
                let e: &mut [UpvaluePtr] = &mut [];
                e
            },
            UpvalueStore::One(p) => core::slice::from_mut(p),
            UpvalueStore::Many(b) => b.as_mut_slice(),
        }
    }

    pub fn len(&self) -> (r: usize)
        ensures
            r == self.ptrs().len(),
    {
        match self {
            UpvalueStore::Empty => 0,
            UpvalueStore::One(_) => 1,
            UpvalueStore::Many(b) => b.len(),
        }
    }
}

} // verus!
