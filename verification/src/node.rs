//! A record wrapper pairing a payload with its optional database identifier.

use vstd::prelude::*;

use crate::foreign_key::IntoKey;
use crate::foreign_key::IntoKeyError;

verus! {

/// A payload together with the identifier the database assigned it, if any.
#[derive(Debug, Clone, PartialEq, Eq)]
pub struct Node<T, I> {
    pub id: Option<I>,
    pub inner: T,
}

impl<T, I> Node<T, I> {
    /// A node that has not been persisted yet.
    pub fn anonymous(inner: T) -> (r: Self)
        ensures
            r.id is None,
            r.inner == inner,
    {
        Node { id: None, inner }
    }

    /// A node with a known identifier.
    pub fn new(id: I, inner: T) -> (r: Self)
        ensures
            r.id == Some(id),
            r.inner == inner,
    {
        Node { id: Some(id), inner }
    }
}

/// A node reduces to its identifier; one that has not been persisted yet has
/// no key and surfaces `MissingId`.
impl<T, I: Clone> IntoKey<I> for Node<T, I> {
    fn into_key(&self) -> (r: Result<I, IntoKeyError>)
        ensures
            self.id is Some ==> r is Ok,
            self.id is None ==> r == Err::<I, IntoKeyError>(IntoKeyError::MissingId),
    {
        match &self.id {
            Some(id) => Ok(id.clone()),
            None => Err(IntoKeyError::MissingId),
        }
    }
}

} // verus!
