//! Transformations of the trees of the local Holium area, known by their handle.
use vstd::prelude::*;

verus! {

/// A transformation of a tree of the local area, known by its handle.
pub struct Transformation {
    pub handle: String,
}

/// An update of a transformation of a tree.
pub struct OptionalTransformation {
    pub handle: Option<String>,
}

/// Merge a stored transformation of a tree with an update.
pub fn merge(old: &Transformation, merged: &OptionalTransformation) -> (r: Transformation)
    ensures r.handle@ == (if merged.handle is Some { merged.handle->0@ } else { old.handle@ }),
{
    Transformation { handle: match &merged.handle { Some(h) => h.clone(), None => old.handle.clone() } }
}

} // verus!
