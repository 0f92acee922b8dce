use vstd::prelude::*;
use crate::search::fs::depth_first_traverse::DepthFirstRecursiveDirTraversal;

verus! {

/// The recursive walk of the start-menu lister: the depth-first walk.
pub type RecursiveDirTraversal<D> = DepthFirstRecursiveDirTraversal<D>;

} // verus!
