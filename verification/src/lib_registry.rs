use vstd::prelude::*;

use crate::lua_value::lua_value::bytes_equal;

verus! {

/// What loading a library module does once its table of entries is built.
#[derive(Clone, Copy, PartialEq, Eq, Structural, Debug)]
pub struct ModulePlan {
    /// The base library: each entry becomes a global, and the globals table is recorded as
    /// `package.loaded["_G"]`.
    pub globals_from_entries: bool,
    /// Any other library: its table becomes the global of the module's name and is recorded
    /// as `package.loaded[name]`.
    pub set_module_global: bool,
    /// The string library's table also becomes the `__index` of the strings' metatable.
    pub string_metatable: bool,
}

/// Decide how a library module named `name` is installed.
pub fn module_plan(name: &str) -> (r: ModulePlan)
    ensures
        r.globals_from_entries == (name@ == "_G"@),
        r.set_module_global == (name@ != "_G"@),
        r.string_metatable == (name@ == "string"@),
{
    proof {
        reveal_strlit("_G");
        reveal_strlit("string");
        vstd::utf8::encode_utf8_decode_utf8(name@);
        vstd::utf8::encode_utf8_decode_utf8("_G"@);
        vstd::utf8::encode_utf8_decode_utf8("string"@);
    }
    let is_base = bytes_equal(name.as_bytes(), "_G".as_bytes());
    let is_string = bytes_equal(name.as_bytes(), "string".as_bytes());
    ModulePlan { globals_from_entries: is_base, set_module_global: !is_base, string_metatable: is_string }
}

} // verus!
