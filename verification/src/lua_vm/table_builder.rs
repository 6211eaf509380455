use vstd::prelude::*;

use crate::lua_value::lua_value::LuaValue;

verus! {

/// Key of an entry collected by a `TableBuilder`; a string key is turned into a Lua string
/// only when the table is made.
pub enum TableKey {
    String(String),
    Integer(i64),
    Value(LuaValue),
}

/// Collects the entries of a Lua table: keyed entries, and values of the sequential part
/// that take the keys 1, 2, 3, … in order.
pub struct TableBuilder {
    entries: Vec<(TableKey, LuaValue)>,
    array: Vec<LuaValue>,
}

impl TableBuilder {
    /// The keyed entries collected so far, in the order they were added.
    pub closed spec fn entries_view(&self) -> Seq<(TableKey, LuaValue)> {
        self.entries@
    }

    /// The values of the sequential part collected so far, in order.
    pub closed spec fn array_view(&self) -> Seq<LuaValue> {
        self.array@
    }

    /// An empty builder.
    pub fn new() -> (r: Self)
        ensures
            r.entries_view() == Seq::<(TableKey, LuaValue)>::empty(),
            r.array_view() == Seq::<LuaValue>::empty(),
    {
        TableBuilder { entries: Vec::new(), array: Vec::new() }
    }

    /// Add an entry under a string key.
    pub fn set(self, key: &str, value: LuaValue) -> (r: Self)
        ensures
            r.entries_view().len() == self.entries_view().len() + 1,
            r.entries_view().drop_last() == self.entries_view(),
            r.entries_view().last().0 matches TableKey::String(s) && s@ == key@,
            r.entries_view().last().1 == value,
            r.array_view() == self.array_view(),
    {
        let mut b = self;
        let k = key.to_string();
        b.entries.push((TableKey::String(k), value));
        proof {
            assert(b.entries@.drop_last() =~= self.entries@);
        }
        b
    }

    /// Add an entry under an integer key.
    pub fn set_int(self, key: i64, value: LuaValue) -> (r: Self)
        ensures
            r.entries_view() == self.entries_view().push((TableKey::Integer(key), value)),
            r.array_view() == self.array_view(),
    {
        let mut b = self;
        b.entries.push((TableKey::Integer(key), value));
        b
    }

    /// Add an entry under any other key.
    pub fn set_value(self, key: LuaValue, value: LuaValue) -> (r: Self)
        ensures
            r.entries_view() == self.entries_view().push((TableKey::Value(key), value)),
            r.array_view() == self.array_view(),
    {
        let mut b = self;
        b.entries.push((TableKey::Value(key), value));
        b
    }

    /// Append a value to the sequential part.
    pub fn push(self, value: LuaValue) -> (r: Self)
        ensures
            r.array_view() == self.array_view().push(value),
            r.entries_view() == self.entries_view(),
    {
        let mut b = self;
        b.array.push(value);
        b
    }
}

impl Default for TableBuilder {
    fn default() -> (r: Self)
        ensures
            r.entries_view() == Seq::<(TableKey, LuaValue)>::empty(),
            r.array_view() == Seq::<LuaValue>::empty(),
    {
        Self::new()
    }
}

} // verus!
