use vstd::prelude::*;

verus! {

/// Handle of a resolved fill. The paint behind it is kept by whoever resolved
/// it; the tree only carries the handle from an element to its spans.
#[derive(Clone, Copy, Debug, PartialEq, Eq, Structural)]
pub struct Fill {
    pub id: u32,
}

/// Handle of a resolved stroke.
#[derive(Clone, Copy, Debug, PartialEq, Eq, Structural)]
pub struct Stroke {
    pub id: u32,
}

/// Handle of a shared, immutable outline in user space.
#[derive(Clone, Copy, Debug, PartialEq, Eq, Structural)]
pub struct PathRef {
    pub id: u32,
}

} // verus!
