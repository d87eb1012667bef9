//! Reducing a loaded object to its identifying key; failing with
//! [`IntoKeyError::MissingId`] when the object has no identifier yet.

use vstd::prelude::*;

verus! {

/// Why a value could not be reduced to its key.
#[derive(Debug, Clone, Copy, PartialEq, Eq)]
pub enum IntoKeyError {
    /// The value had no identifier to offer (an `id: Option<_>` holding
    /// `None`).
    MissingId,
    /// The value's identifier could not be transformed into the key type.
    TransformError,
    /// A custom error message.
    Custom(&'static str),
}

/// Any type held inside a foreign reference implements this, so the
/// reference can collapse to a key when serialized.
pub trait IntoKey<I> {
    /// The key standing for `self`.
    fn into_key(&self) -> Result<I, IntoKeyError>;
}

impl IntoKey<String> for String {
    fn into_key(&self) -> (r: Result<String, IntoKeyError>)
        ensures
            r matches Ok(k) && k@ == self@,
    {
        Ok(self.clone())
    }
}

impl IntoKey<String> for &str {
    fn into_key(&self) -> (r: Result<String, IntoKeyError>)
        ensures
            r matches Ok(k) && k@ == (*self)@,
    {
        Ok((*self).to_owned())
    }
}

/// A vector reduces element-wise, surfacing the first failure.
impl<V: IntoKey<K>, K> IntoKey<Vec<K>> for Vec<V> {
    fn into_key(&self) -> (r: Result<Vec<K>, IntoKeyError>) {
        let mut keys: Vec<K> = Vec::new();
        let mut i: usize = 0;
        while i < self.len()
            invariant
                i <= self@.len(),
            decreases self.len() - i,
        {
            match self[i].into_key() {
                Ok(k) => {
                    keys.push(k);
                },
                Err(e) => {
                    return Err(e);
                },
            }
            i = i + 1;
        }
        Ok(keys)
    }
}

impl<V: IntoKey<K>, K> IntoKey<K> for Box<V> {
    fn into_key(&self) -> (r: Result<K, IntoKeyError>) {
        (**self).into_key()
    }
}

/// An optional value reduces when present and fails with `MissingId`
/// otherwise, so types with an `id: Option<_>` field implement the trait
/// easily.
impl<V: IntoKey<K>, K> IntoKey<K> for Option<V> {
    fn into_key(&self) -> (r: Result<K, IntoKeyError>)
        ensures
            *self is None ==> r == Err::<K, IntoKeyError>(IntoKeyError::MissingId),
    {
        match self {
            Some(v) => v.into_key(),
            None => Err(IntoKeyError::MissingId),
        }
    }
}

} // verus!
