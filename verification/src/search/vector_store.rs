//! Kinds of items that carry an embedding.

use vstd::prelude::*;

verus! {

#[derive(Debug, Clone, Copy, PartialEq, Eq, Structural)]
pub enum ItemType {
    Issue,
    PullRequest,
}

} // verus!
