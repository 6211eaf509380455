use vstd::prelude::*;

verus! {

/// Kind of a collectable object, as stored in the tag bits of a tagged object pointer.
#[derive(Debug, Clone, Copy, PartialEq, Eq, Structural)]
pub enum GcObjectKind {
    String,
    Table,
    Function,
    CClosure,
    RClosure,
    Upvalue,
    Thread,
    Userdata,
    Binary,
}

/// The numeric tag of each kind (0 for strings up to 8 for binaries).
pub open spec fn kind_tag(kind: GcObjectKind) -> u8 {
    match kind {
        GcObjectKind::String => 0,
        GcObjectKind::Table => 1,
        GcObjectKind::Function => 2,
        GcObjectKind::CClosure => 3,
        GcObjectKind::RClosure => 4,
        GcObjectKind::Upvalue => 5,
        GcObjectKind::Thread => 6,
        GcObjectKind::Userdata => 7,
        GcObjectKind::Binary => 8,
    }
}

impl GcObjectKind {
    /// The numeric tag of this kind.
    pub fn tag(self) -> (r: u8)
        ensures
            r == kind_tag(self),
    {
        match self {
            GcObjectKind::String => 0,
            GcObjectKind::Table => 1,
            GcObjectKind::Function => 2,
            GcObjectKind::CClosure => 3,
            GcObjectKind::RClosure => 4,
            GcObjectKind::Upvalue => 5,
            GcObjectKind::Thread => 6,
            GcObjectKind::Userdata => 7,
            GcObjectKind::Binary => 8,
        }
    }
}

} // verus!
