//! Convenience extensions for fragment types.

use vstd::prelude::*;

use crate::queries::QueryBuilderInjecter;

verus! {

/// Turns a fragment into an optional one based on a condition, enabling
/// `Fetch(["author"]).when(fetch_author)`-style conditional composition.
pub trait IntoOptionalInjecterExt: Sized {
    /// `Some(self)` when `condition` holds, `None` otherwise.
    fn when(self, condition: bool) -> (r: Option<Self>)
        ensures
            condition ==> r == Some(self),
            !condition ==> r is None,
    ;
}

impl<I: QueryBuilderInjecter> IntoOptionalInjecterExt for I {
    fn when(self, condition: bool) -> (r: Option<Self>) {
        if condition {
            Some(self)
        } else {
            None
        }
    }
}

} // verus!
