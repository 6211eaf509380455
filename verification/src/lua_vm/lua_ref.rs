use std::collections::HashMap;
use vstd::prelude::*;

use crate::lua_value::lua_value::{LuaValue, BIT_ISCOLLECTABLE, LUA_TNIL};

verus! {

/// A reference id in the registry (as returned by `luaL_ref`).
pub type RefId = i32;

/// The reference to nil (no storage needed).
pub const LUA_REFNIL: RefId = -1;
/// An invalid reference.
pub const LUA_NOREF: RefId = -2;

/// Abstract state of a reference manager: the id handed out next when no id is free, and the
/// released ids waiting for reuse (the last one is reused first).
pub struct RefManagerView {
    pub next: i32,
    pub free: Seq<i32>,
}

/// Hands out registry reference ids and takes them back for reuse.
pub struct RefManager {
    next_ref_id: RefId,
    free_list: Vec<RefId>,
}

impl View for RefManager {
    type V = RefManagerView;

    closed spec fn view(&self) -> RefManagerView {
        RefManagerView { next: self.next_ref_id, free: self.free_list@ }
    }
}

/// The free list holds positive ids, each at most once.
pub open spec fn free_list_wf(free: Seq<i32>) -> bool {
    &&& forall|k: int| 0 <= k < free.len() ==> free[k] > 0
    &&& forall|j: int, k: int| 0 <= j < k < free.len() ==> free[j] != free[k]
}

/// The id handed out after `next` when no id is free: the following one, wrapping back to 1
/// past the largest id.
pub open spec fn following_id(next: i32) -> i32 {
    if next == i32::MAX {
        1
    } else {
        (next + 1) as i32
    }
}

/// The id handed out by an allocation and the state after it.
pub open spec fn alloc_result(m: RefManagerView) -> (i32, RefManagerView) {
    if m.free.len() > 0 {
        (m.free.last(), RefManagerView { next: m.next, free: m.free.drop_last() })
    } else {
        (m.next, RefManagerView { next: following_id(m.next), free: m.free })
    }
}

/// The state after an id is released: positive ids not already free join the free list.
pub open spec fn after_free(m: RefManagerView, ref_id: i32) -> RefManagerView {
    if ref_id > 0 && !m.free.contains(ref_id) {
        RefManagerView { next: m.next, free: m.free.push(ref_id) }
    } else {
        m
    }
}

impl RefManager {
    /// Well formed: the next id is positive and the free list holds distinct positive ids.
    pub open spec fn wf(&self) -> bool {
        &&& self@.next > 0
        &&& free_list_wf(self@.free)
    }

    /// A fresh manager: ids start at 1, none free.
    pub fn new() -> (r: Self)
        ensures
            r.wf(),
            r@.next == 1,
            r@.free == Seq::<i32>::empty(),
    {
        RefManager { next_ref_id: 1, free_list: Vec::new() }
    }

    /// Hand out an id: the most recently released one if any, else the next fresh one.
    pub fn alloc_ref_id(&mut self) -> (r: RefId)
        requires
            old(self).wf(),
        ensures
            (r, final(self)@) == alloc_result(old(self)@),
            r > 0,
            final(self).wf(),
            !final(self)@.free.contains(r),
    {
        if self.free_list.len() > 0 {
            let r = self.free_list.pop().unwrap();
            proof {
                assert(free_list_wf(self.free_list@)) by {
                    assert forall|j: int, k: int|
                        0 <= j < k < self.free_list@.len() implies self.free_list@[j]
                        != self.free_list@[k] by {
                        assert(self.free_list@[j] == old(self).free_list@[j]);
                        assert(self.free_list@[k] == old(self).free_list@[k]);
                    }
                }
            }
            r
        } else {
            let r = self.next_ref_id;
            let n = self.next_ref_id.wrapping_add(1);
            if n < 0 {
                self.next_ref_id = 1;
            } else {
                self.next_ref_id = n;
            }
            r
        }
    }

    /// Take an id back for reuse: positive ids not already free are pushed on the free list;
    /// anything else is ignored.
    pub fn free_ref_id(&mut self, ref_id: RefId)
        requires
            old(self).wf(),
        ensures
            final(self)@ == after_free(old(self)@, ref_id),
            final(self).wf(),
    {
        if ref_id > 0 && !contains_id(&self.free_list, ref_id) {
            self.free_list.push(ref_id);
            proof {
                assert forall|j: int, k: int|
                    0 <= j < k < self.free_list@.len() implies self.free_list@[j]
                    != self.free_list@[k] by {
                    if k == self.free_list@.len() - 1 {
                        assert(self.free_list@[j] == old(self).free_list@[j]);
                        assert(old(self).free_list@.contains(self.free_list@[j]));
                    }
                }
            }
        }
    }
}

/// Whether `ids` holds `id`.
fn contains_id(ids: &Vec<RefId>, id: RefId) -> (r: bool)
    ensures
        r == ids@.contains(id),
{
    let mut i: usize = 0;
    while i < ids.len()
        invariant
            i <= ids@.len(),
            forall|k: int| 0 <= k < i ==> ids@[k] != id,
        decreases ids@.len() - i,
    {
        if ids[i] == id {
            return true;
        }
        i = i + 1;
    }
    false
}

/// Releasing an id that is in use and allocating again hands the same id back and leaves
/// the manager as it was before the release.
pub proof fn lemma_released_id_is_reused(m: RefManagerView, ref_id: RefId)
    requires
        ref_id > 0,
        !m.free.contains(ref_id),
    ensures
        alloc_result(after_free(m, ref_id)) == (ref_id, m),
{
    assert(m.free.push(ref_id).drop_last() =~= m.free);
}

/// Releasing an id twice has the effect of releasing it once.
pub proof fn lemma_free_idempotent(m: RefManagerView, ref_id: RefId)
    ensures
        after_free(after_free(m, ref_id), ref_id) == after_free(m, ref_id),
{
    if ref_id > 0 && !m.free.contains(ref_id) {
        assert(m.free.push(ref_id).contains(ref_id)) by {
            assert(m.free.push(ref_id)[m.free.len() as int] == ref_id);
        }
    }
}

/// While no id is free, successive allocations hand out successive ids.
pub proof fn lemma_fresh_ids_count_up(m: RefManagerView)
    requires
        m.free.len() == 0,
        0 < m.next < i32::MAX,
    ensures
        alloc_result(m).0 == m.next,
        alloc_result(alloc_result(m).1).0 == m.next + 1,
{
}

/// The ids and manager state after `k` allocations in a row, with no release between them.
pub open spec fn alloc_many(m: RefManagerView, k: nat) -> (Seq<i32>, RefManagerView)
    decreases k,
{
    if k == 0 {
        (Seq::empty(), m)
    } else {
        let (ids, m1) = alloc_many(m, (k - 1) as nat);
        let (r, m2) = alloc_result(m1);
        (ids.push(r), m2)
    }
}

/// From a fresh manager, `k` allocations in a row hand out the ids 1, 2, ..., k.
pub proof fn lemma_fresh_ids_are_one_to_k(k: nat)
    requires
        k < i32::MAX,
    ensures
        alloc_many(RefManagerView { next: 1, free: Seq::empty() }, k).0 == Seq::new(
            k,
            |i: int| (i + 1) as i32,
        ),
        alloc_many(RefManagerView { next: 1, free: Seq::empty() }, k).1 == (RefManagerView {
            next: (k + 1) as i32,
            free: Seq::empty(),
        }),
    decreases k,
{
    if k > 0 {
        lemma_fresh_ids_are_one_to_k((k - 1) as nat);
        assert(alloc_many(RefManagerView { next: 1, free: Seq::empty() }, k).0 =~= Seq::new(
            k,
            |i: int| (i + 1) as i32,
        ));
    }
}

/// The manager state agrees with the set `used` of ids currently handed out: those and the
/// free ids are all below the next fresh id, and no free id is in use.
pub open spec fn ids_agree(m: RefManagerView, used: Set<i32>) -> bool {
    &&& m.next > 0
    &&& free_list_wf(m.free)
    &&& forall|id: i32| #[trigger] used.contains(id) ==> 0 < id < m.next
    &&& forall|k: int| 0 <= k < m.free.len() ==> 0 < #[trigger] m.free[k] < m.next && !used.contains(m.free[k])
}

/// A fresh manager agrees with no id in use.
pub proof fn lemma_fresh_manager_agrees()
    ensures
        ids_agree(RefManagerView { next: 1, free: Seq::empty() }, Set::empty()),
{
}

/// An allocation hands out a positive id that differs from every id still in use; before the
/// fresh ids run out (the counter below `i32::MAX`) the state then agrees with that id in use
/// as well.
pub proof fn lemma_alloc_avoids_used_ids(m: RefManagerView, used: Set<i32>)
    requires
        ids_agree(m, used),
    ensures
        alloc_result(m).0 > 0,
        !used.contains(alloc_result(m).0),
        m.next < i32::MAX ==> ids_agree(alloc_result(m).1, used.insert(alloc_result(m).0)),
{
    let (r, m2) = alloc_result(m);
    if m.free.len() > 0 {
        assert(m.free[m.free.len() - 1] == r);
        assert forall|k: int| 0 <= k < m2.free.len() implies 0 < #[trigger] m2.free[k] < m2.next
            && !used.insert(r).contains(m2.free[k]) by {
            assert(m2.free[k] == m.free[k]);
            assert(m.free[k] != m.free[m.free.len() - 1]);
        }
    }
}

/// Releasing an id in use gives a state that agrees with that id no longer in use.
pub proof fn lemma_free_keeps_agreement(m: RefManagerView, used: Set<i32>, ref_id: RefId)
    requires
        ids_agree(m, used),
        used.contains(ref_id),
    ensures
        ids_agree(after_free(m, ref_id), used.remove(ref_id)),
{
    let m2 = after_free(m, ref_id);
    assert(!m.free.contains(ref_id)) by {
        if m.free.contains(ref_id) {
            let k = choose|k: int| 0 <= k < m.free.len() && m.free[k] == ref_id;
            assert(!used.contains(m.free[k]));
        }
    }
    assert forall|j: int, k: int| 0 <= j < k < m2.free.len() implies m2.free[j] != m2.free[k] by {
        if k == m.free.len() {
            assert(m2.free[j] == m.free[j]);
            assert(m.free.contains(m.free[j]));
        }
    }
    assert forall|k: int| 0 <= k < m2.free.len() implies 0 < #[trigger] m2.free[k] < m2.next
        && !used.remove(ref_id).contains(m2.free[k]) by {
        if k < m.free.len() {
            assert(m2.free[k] == m.free[k]);
        }
    }
}

/// Releasing an id in use twice, then allocating twice: the first allocation hands the id
/// back, the second hands out a different one.
pub proof fn lemma_double_free_then_reuse(m: RefManagerView, used: Set<i32>, ref_id: RefId)
    requires
        ids_agree(m, used),
        used.contains(ref_id),
    ensures
        alloc_result(after_free(after_free(m, ref_id), ref_id)).0 == ref_id,
        alloc_result(alloc_result(after_free(after_free(m, ref_id), ref_id)).1).0 != ref_id,
{
    lemma_free_idempotent(m, ref_id);
    assert(!m.free.contains(ref_id)) by {
        if m.free.contains(ref_id) {
            let k = choose|k: int| 0 <= k < m.free.len() && m.free[k] == ref_id;
            assert(!used.contains(m.free[k]));
        }
    }
    lemma_released_id_is_reused(m, ref_id);
    lemma_alloc_avoids_used_ids(m, used);
}

/// How a reference stores its value.
pub enum LuaRefInner {
    /// Direct storage for values that are not collectable (numbers, booleans, nil).
    Direct(LuaValue),
    /// Storage in the registry under an id (tables, strings, functions, ...).
    Registry { ref_id: RefId },
}

/// A reference to a Lua value: held directly, or through the registry.
pub struct LuaRefValue {
    pub inner: LuaRefInner,
}

impl LuaRefValue {
    /// A reference that holds a value directly.
    pub fn new_direct(value: LuaValue) -> (r: Self)
        ensures
            r.inner == LuaRefInner::Direct(value),
    {
        LuaRefValue { inner: LuaRefInner::Direct(value) }
    }

    /// A reference to registry slot `ref_id`.
    pub fn new_registry(ref_id: RefId) -> (r: Self)
        ensures
            r.inner == (LuaRefInner::Registry { ref_id }),
    {
        LuaRefValue { inner: LuaRefInner::Registry { ref_id } }
    }

    /// The registry id, for a registry reference.
    pub fn ref_id(&self) -> (r: Option<RefId>)
        ensures
            r == (match self.inner {
                LuaRefInner::Registry { ref_id } => Some(ref_id),
                LuaRefInner::Direct(_) => None,
            }),
    {
        match &self.inner {
            LuaRefInner::Registry { ref_id } => Some(*ref_id),
            LuaRefInner::Direct(_) => None,
        }
    }

    /// The value of a direct reference.
    pub fn get_direct(&self) -> (r: Option<&LuaValue>)
        ensures
            r == (match self.inner {
                LuaRefInner::Direct(v) => Some(&v),
                LuaRefInner::Registry { .. } => None,
            }),
    {
        match &self.inner {
            LuaRefInner::Direct(value) => Some(value),
            LuaRefInner::Registry { .. } => None,
        }
    }

    /// Direct references are always valid; registry references when their id is positive.
    pub fn is_valid(&self) -> (r: bool)
        ensures
            r == (match self.inner {
                LuaRefInner::Direct(_) => true,
                LuaRefInner::Registry { ref_id } => ref_id > 0,
            }),
    {
        match &self.inner {
            LuaRefInner::Direct(_) => true,
            LuaRefInner::Registry { ref_id } => *ref_id > 0,
        }
    }

    /// The value is stored in the registry.
    pub fn is_registry_ref(&self) -> (r: bool)
        ensures
            r == (self.inner is Registry),
    {
        match &self.inner {
            LuaRefInner::Registry { .. } => true,
            LuaRefInner::Direct(_) => false,
        }
    }

    /// The raw reference id: the registry id, `LUA_REFNIL` for a direct nil and `LUA_NOREF`
    /// for any other direct value.
    pub fn to_raw_ref(&self) -> (r: RefId)
        ensures
            r == (match self.inner {
                LuaRefInner::Direct(v) => if v.tag() % 16 == LUA_TNIL {
                    LUA_REFNIL
                } else {
                    LUA_NOREF
                },
                LuaRefInner::Registry { ref_id } => ref_id,
            }),
    {
        match &self.inner {
            LuaRefInner::Direct(value) => {
                if value.is_nil() {
                    LUA_REFNIL
                } else {
                    LUA_NOREF
                }
            },
            LuaRefInner::Registry { ref_id } => *ref_id,
        }
    }
}

impl Clone for LuaRefValue {
    /// A copy of the reference: the same direct value or the same registry id.
    fn clone(&self) -> (r: Self)
        ensures
            r.inner == self.inner,
    {
        match &self.inner {
            LuaRefInner::Direct(value) => LuaRefValue::new_direct(*value),
            LuaRefInner::Registry { ref_id } => LuaRefValue::new_registry(*ref_id),
        }
    }
}

/// A reference to a table held in the registry.
pub struct LuaTableRef {
    ref_id: RefId,
}

impl LuaTableRef {
    /// A reference to the table in registry slot `ref_id`.
    pub fn from_raw(ref_id: RefId) -> (r: Self)
        ensures
            r.id() == ref_id,
    {
        LuaTableRef { ref_id }
    }

    /// The registry id.
    pub closed spec fn id(&self) -> RefId {
        self.ref_id
    }

    /// The registry id.
    pub fn ref_id(&self) -> (r: RefId)
        ensures
            r == self.id(),
    {
        self.ref_id
    }
}

/// A reference to a function held in the registry.
pub struct LuaFunctionRef {
    ref_id: RefId,
}

impl LuaFunctionRef {
    /// A reference to the function in registry slot `ref_id`.
    pub fn from_raw(ref_id: RefId) -> (r: Self)
        ensures
            r.id() == ref_id,
    {
        LuaFunctionRef { ref_id }
    }

    /// The registry id.
    pub closed spec fn id(&self) -> RefId {
        self.ref_id
    }

    /// The registry id.
    pub fn ref_id(&self) -> (r: RefId)
        ensures
            r == self.id(),
    {
        self.ref_id
    }
}

/// A reference to a string held in the registry.
pub struct LuaStringRef {
    ref_id: RefId,
}

impl LuaStringRef {
    /// A reference to the string in registry slot `ref_id`.
    pub fn from_raw(ref_id: RefId) -> (r: Self)
        ensures
            r.id() == ref_id,
    {
        LuaStringRef { ref_id }
    }

    /// The registry id.
    pub closed spec fn id(&self) -> RefId {
        self.ref_id
    }

    /// The registry id.
    pub fn ref_id(&self) -> (r: RefId)
        ensures
            r == self.id(),
    {
        self.ref_id
    }
}

/// A reference to any value held in the registry.
pub struct LuaAnyRef {
    ref_id: RefId,
}

impl LuaAnyRef {
    /// A reference to the value in registry slot `ref_id`.
    pub fn from_raw(ref_id: RefId) -> (r: Self)
        ensures
            r.id() == ref_id,
    {
        LuaAnyRef { ref_id }
    }

    /// The registry id.
    pub closed spec fn id(&self) -> RefId {
        self.ref_id
    }

    /// The registry id.
    pub fn ref_id(&self) -> (r: RefId)
        ensures
            r == self.id(),
    {
        self.ref_id
    }
}

} // verus!

verus! {

broadcast use vstd::std_specs::hash::group_hash_axioms;

/// The value a reference resolves to, given the registry's integer entries: a direct value
/// as held, a registry reference as its entry (`None` when the entry is absent).
pub open spec fn resolve_ref(entries: Map<i64, LuaValue>, inner: LuaRefInner) -> Option<LuaValue> {
    match inner {
        LuaRefInner::Direct(v) => Some(v),
        LuaRefInner::Registry { ref_id } => if entries.contains_key(ref_id as i64) {
            Some(entries[ref_id as i64])
        } else {
            None
        },
    }
}

/// The value is nil (any nil variant).
pub open spec fn is_nil_value(v: LuaValue) -> bool {
    v.tag() % 16 == LUA_TNIL
}

/// The integer-keyed entries of the registry together with the manager of reference ids:
/// what `luaL_ref`-style references are stored in. Storing nil removes an entry.
pub struct RefRegistry {
    ref_manager: RefManager,
    entries: HashMap<i64, LuaValue>,
}

impl RefRegistry {
    /// The state of the reference ids.
    pub closed spec fn ids(&self) -> RefManagerView {
        self.ref_manager@
    }

    /// Well formed: the reference ids are.
    pub closed spec fn wf(&self) -> bool {
        self.ref_manager.wf()
    }

    /// The registry's entries.
    pub closed spec fn entries(&self) -> Map<i64, LuaValue> {
        self.entries@
    }

    /// An empty registry with a fresh reference manager.
    pub fn new() -> (r: Self)
        ensures
            r.wf(),
            r.ids().next == 1,
            r.ids().free == Seq::<i32>::empty(),
            r.entries() == Map::<i64, LuaValue>::empty(),
    {
        RefRegistry { ref_manager: RefManager::new(), entries: HashMap::new() }
    }

    /// Store `value` under `key`; storing nil removes the entry.
    pub fn registry_seti(&mut self, key: i64, value: LuaValue)
        ensures
            final(self).ids() == old(self).ids(),
            final(self).wf() == old(self).wf(),
            final(self).entries() == (if is_nil_value(value) {
                old(self).entries().remove(key)
            } else {
                old(self).entries().insert(key, value)
            }),
    {
        if value.is_nil() {
            self.entries.remove(&key);
        } else {
            self.entries.insert(key, value);
        }
    }

    /// The entry under `key`, if any.
    pub fn registry_geti(&self, key: i64) -> (r: Option<LuaValue>)
        ensures
            r == (if self.entries().contains_key(key) {
                Some(self.entries()[key])
            } else {
                None
            }),
    {
        match self.entries.get(&key) {
            Some(v) => Some(*v),
            None => None,
        }
    }

    /// Make a reference to `value`: nil is held directly as nil, collectable values are
    /// stored in the registry under a fresh id, other values are held directly. The
    /// reference resolves to the value (nil for any nil variant).
    pub fn create_ref(&mut self, value: LuaValue) -> (r: LuaRefValue)
        requires
            old(self).wf(),
        ensures
            final(self).wf(),
            is_nil_value(value) ==> {
                &&& r.inner matches LuaRefInner::Direct(v) && v.tag() == 0 && v.payload() == 0
                &&& *final(self) == *old(self)
            },
            !is_nil_value(value) && value.tag() & BIT_ISCOLLECTABLE != 0 ==> {
                &&& r.inner matches LuaRefInner::Registry { ref_id } && ref_id > 0
                &&& !final(self).ids().free.contains(alloc_result(old(self).ids()).0)
                &&& r.inner == (LuaRefInner::Registry {
                    ref_id: alloc_result(old(self).ids()).0,
                })
                &&& final(self).ids() == alloc_result(old(self).ids()).1
                &&& final(self).entries() == old(self).entries().insert(
                    alloc_result(old(self).ids()).0 as i64,
                    value,
                )
            },
            !is_nil_value(value) && value.tag() & BIT_ISCOLLECTABLE == 0 ==> {
                &&& r.inner == LuaRefInner::Direct(value)
                &&& *final(self) == *old(self)
            },
            !is_nil_value(value) ==> resolve_ref(final(self).entries(), r.inner) == Some(value),
    {
        if value.is_nil() {
            return LuaRefValue::new_direct(LuaValue::nil());
        }
        if value.is_collectable() {
            let ref_id = self.ref_manager.alloc_ref_id();
            self.registry_seti(ref_id as i64, value);
            LuaRefValue::new_registry(ref_id)
        } else {
            LuaRefValue::new_direct(value)
        }
    }

    /// The value a reference resolves to; nil when its registry entry is gone.
    pub fn get_ref_value(&self, lua_ref: &LuaRefValue) -> (r: LuaValue)
        ensures
            resolve_ref(self.entries(), lua_ref.inner) matches Some(v) ==> r == v,
            resolve_ref(self.entries(), lua_ref.inner) is None ==> r.tag() == 0 && r.payload() == 0,
    {
        match &lua_ref.inner {
            LuaRefInner::Direct(value) => *value,
            LuaRefInner::Registry { ref_id } => match self.registry_geti(*ref_id as i64) {
                Some(v) => v,
                None => LuaValue::nil(),
            },
        }
    }

    /// Release a reference: a registry reference's entry is removed and its id handed back
    /// for reuse; direct references need nothing.
    pub fn release_ref(&mut self, lua_ref: LuaRefValue)
        requires
            old(self).wf(),
        ensures
            final(self).wf(),
            lua_ref.inner matches LuaRefInner::Registry { ref_id } ==> {
                &&& final(self).entries() == old(self).entries().remove(ref_id as i64)
                &&& final(self).ids() == after_free(old(self).ids(), ref_id)
                &&& resolve_ref(final(self).entries(), lua_ref.inner) is None
            },
            lua_ref.inner is Direct ==> *final(self) == *old(self),
    {
        if let Some(ref_id) = lua_ref.ref_id() {
            self.registry_seti(ref_id as i64, LuaValue::nil());
            self.ref_manager.free_ref_id(ref_id);
        }
    }

    /// Release a reference by its raw id (positive ids only).
    pub fn release_ref_id(&mut self, ref_id: RefId)
        requires
            old(self).wf(),
        ensures
            final(self).wf(),
            ref_id > 0 ==> {
                &&& final(self).entries() == old(self).entries().remove(ref_id as i64)
                &&& final(self).ids() == after_free(old(self).ids(), ref_id)
            },
            ref_id <= 0 ==> *final(self) == *old(self),
    {
        if ref_id > 0 {
            self.registry_seti(ref_id as i64, LuaValue::nil());
            self.ref_manager.free_ref_id(ref_id);
        }
    }

    /// The value stored under a raw reference id: nil for `LUA_REFNIL`, for invalid ids and
    /// for absent entries.
    pub fn get_ref_value_by_id(&self, ref_id: RefId) -> (r: LuaValue)
        ensures
            ref_id > 0 && self.entries().contains_key(ref_id as i64) ==> r == self.entries()[ref_id as i64],
            !(ref_id > 0 && self.entries().contains_key(ref_id as i64)) ==> r.tag() == 0 && r.payload() == 0,
    {
        if ref_id == LUA_REFNIL {
            return LuaValue::nil();
        }
        if ref_id <= 0 {
            return LuaValue::nil();
        }
        match self.registry_geti(ref_id as i64) {
            Some(v) => v,
            None => LuaValue::nil(),
        }
    }
}

} // verus!
