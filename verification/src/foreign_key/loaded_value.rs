//! The tri-state value held by a foreign reference: loaded data, a bare key,
//! or nothing. Exactly one state holds at any time, and every transition is
//! an explicit caller action.

use vstd::prelude::*;

use crate::foreign_key::into_key::IntoKey;
use crate::foreign_key::into_key::IntoKeyError;

verus! {

/// Loaded data, a bare key, or nothing.
#[derive(Clone, PartialEq, Eq, Debug)]
pub enum LoadedValue<V, K> {
    Loaded(V),
    Key(K),
    Unloaded,
}

impl<V, K> Default for LoadedValue<V, K> {
    /// A fresh value starts unloaded.
    fn default() -> (r: Self)
        ensures
            r is Unloaded,
    {
        LoadedValue::Unloaded
    }
}

impl<V, K> LoadedValue<V, K> {
    /// The loaded value, when one is held.
    pub fn value(&self) -> (r: Option<&V>)
        ensures
            match *self {
                LoadedValue::Loaded(v) => r matches Some(rv) && *rv == v,
                _ => r is None,
            },
    {
        match self {
            LoadedValue::Loaded(v) => Some(v),
            _ => None,
        }
    }

    /// Consumes `self` to get the loaded value, when one is held.
    pub fn into_value(self) -> (r: Option<V>)
        ensures
            match self {
                LoadedValue::Loaded(v) => r == Some(v),
                _ => r is None,
            },
    {
        match self {
            LoadedValue::Loaded(v) => Some(v),
            _ => None,
        }
    }

    /// Consumes `self` to get the key, when one is held.
    pub fn into_key(self) -> (r: Option<K>)
        ensures
            match self {
                LoadedValue::Key(k) => r == Some(k),
                _ => r is None,
            },
    {
        match self {
            LoadedValue::Key(k) => Some(k),
            _ => None,
        }
    }

    /// The key, when one is held.
    pub fn key(&self) -> (r: Option<&K>)
        ensures
            match *self {
                LoadedValue::Key(k) => r matches Some(rk) && *rk == k,
                _ => r is None,
            },
    {
        match self {
            LoadedValue::Key(k) => Some(k),
            _ => None,
        }
    }

    /// Whether nothing is held.
    pub fn is_unloaded(&self) -> (r: bool)
        ensures
            r == (*self is Unloaded),
    {
        match self {
            LoadedValue::Unloaded => true,
            _ => false,
        }
    }

    /// Whether a bare key is held.
    pub fn is_key(&self) -> (r: bool)
        ensures
            r == (*self is Key),
    {
        match self {
            LoadedValue::Key(_) => true,
            _ => false,
        }
    }

    /// Whether loaded data is held.
    pub fn is_loaded(&self) -> (r: bool)
        ensures
            r == (*self is Loaded),
    {
        match self {
            LoadedValue::Loaded(_) => true,
            _ => false,
        }
    }

    /// Drops whatever is held and stores the given loaded value.
    pub fn set_value(&mut self, value: V)
        ensures
            *final(self) == LoadedValue::<V, K>::Loaded(value),
    {
        *self = LoadedValue::Loaded(value);
    }

    /// Drops whatever is held and stores the given key.
    pub fn set_key(&mut self, identifier: K)
        ensures
            *final(self) == LoadedValue::<V, K>::Key(identifier),
    {
        *self = LoadedValue::Key(identifier);
    }

    /// Drops whatever is held.
    pub fn unload(&mut self)
        ensures
            *final(self) is Unloaded,
    {
        *self = LoadedValue::Unloaded;
    }

    /// Takes the whole state out, leaving `Unloaded` behind.
    pub fn take(&mut self) -> (r: LoadedValue<V, K>)
        ensures
            r == *old(self),
            *final(self) is Unloaded,
    {
        let mut taken = LoadedValue::Unloaded;
        core::mem::swap(&mut taken, self);
        taken
    }
}

impl<V: IntoKey<K>, K> LoadedValue<V, K> {
    /// A key standing for the current state: the held key (cloned), the key
    /// reduced from the loaded value, or `None` when unloaded. Reducing a
    /// loaded value without an identifier surfaces the error.
    pub fn to_key(&self) -> (r: Result<Option<K>, IntoKeyError>) where K: Clone
        ensures
            *self is Unloaded ==> (r matches Ok(o) && o is None),
            *self is Key ==> (r matches Ok(o) && o is Some),
            *self is Loaded ==> !(r matches Ok(o) && o is None),
    {
        match self {
            LoadedValue::Key(k) => Ok(Some(k.clone())),
            LoadedValue::Loaded(v) => match v.into_key() {
                Ok(k) => Ok(Some(k)),
                Err(e) => Err(e),
            },
            LoadedValue::Unloaded => Ok(None),
        }
    }

    /// Consumes `self` to get a key: the held key, or the key reduced from
    /// the loaded value (errors collapse to `None`).
    pub fn unwrap_key(self) -> (r: Option<K>)
        ensures
            self matches LoadedValue::Key(k) ==> r == Some(k),
            self is Unloaded ==> r is None,
    {
        match self {
            LoadedValue::Key(k) => Some(k),
            LoadedValue::Loaded(v) => match v.into_key() {
                Ok(k) => Some(k),
                Err(_) => None,
            },
            LoadedValue::Unloaded => None,
        }
    }
}

} // verus!
