// Publishes the list of CSS property names as a sorted JSON document in a
// hosted repository, overwriting the file only at the revision it read.
use vstd::prelude::*;

pub mod json;
pub mod laws;
pub mod model;
pub mod normalize;
pub mod order;
pub mod render;
pub mod repository;
pub mod sort;
pub mod stage;

verus! {

} // verus!
