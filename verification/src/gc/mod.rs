pub mod gc_kind;
pub mod gc_object;
pub mod string_interner;
