//! A foreign reference: tri-state data from a foreign node, with an explicit
//! flag deciding whether serialization may emit the full loaded value or must
//! collapse to the key.

use vstd::prelude::*;

use crate::foreign_key::into_key::IntoKey;
use crate::foreign_key::into_key::IntoKeyError;
use crate::foreign_key::key_ser_control::KeySerializeControl;
use crate::foreign_key::loaded_value::LoadedValue;

verus! {

/// Foreign data that may be loaded, a bare key, or absent. When serialized
/// with `allow_value_serialize` unset (the default), a loaded value collapses
/// to the key its [`IntoKey`] impl yields; the surrounding application's
/// serializer follows this flag.
#[derive(Clone, PartialEq, Eq, Debug)]
pub struct ForeignKey<V, K> {
    pub inner: LoadedValue<V, K>,
    pub allow_value_serialize: bool,
}

impl<V, K> Default for ForeignKey<V, K> {
    /// A fresh reference starts unloaded, collapsing to its key on
    /// serialization.
    fn default() -> (r: Self)
        ensures
            r.inner is Unloaded,
            !r.allow_value_serialize,
    {
        ForeignKey { inner: LoadedValue::Unloaded, allow_value_serialize: false }
    }
}

impl<V, K> ForeignKey<V, K> {
    /// A reference in the `Loaded` state holding the supplied value.
    pub fn new_value(value: V) -> (r: Self)
        ensures
            r.inner == LoadedValue::<V, K>::Loaded(value),
            !r.allow_value_serialize,
    {
        ForeignKey { inner: LoadedValue::Loaded(value), allow_value_serialize: false }
    }

    /// A reference in the `Key` state holding the supplied key.
    pub fn new_key(key: K) -> (r: Self)
        ensures
            r.inner == LoadedValue::<V, K>::Key(key),
            !r.allow_value_serialize,
    {
        ForeignKey { inner: LoadedValue::Key(key), allow_value_serialize: false }
    }

    /// An unloaded reference.
    pub fn new() -> (r: Self)
        ensures
            r.inner is Unloaded,
            !r.allow_value_serialize,
    {
        ForeignKey { inner: LoadedValue::Unloaded, allow_value_serialize: false }
    }

    /// A reference holding the given state, with the default serialization
    /// policy.
    pub fn from_loaded_value(value: LoadedValue<V, K>) -> (r: Self)
        ensures
            r.inner == value,
            !r.allow_value_serialize,
    {
        ForeignKey { inner: value, allow_value_serialize: false }
    }

    /// Consumes the reference to get its state.
    pub fn into_inner(self) -> (r: LoadedValue<V, K>)
        ensures
            r == self.inner,
    {
        self.inner
    }

    /// The loaded value, when one is held.
    pub fn value(&self) -> (r: Option<&V>)
        ensures
            match self.inner {
                LoadedValue::Loaded(v) => r matches Some(rv) && *rv == v,
                _ => r is None,
            },
    {
        self.inner.value()
    }

    /// The key, when one is held.
    pub fn key(&self) -> (r: Option<&K>)
        ensures
            match self.inner {
                LoadedValue::Key(k) => r matches Some(rk) && *rk == k,
                _ => r is None,
            },
    {
        self.inner.key()
    }

    /// Whether nothing is held.
    pub fn is_unloaded(&self) -> (r: bool)
        ensures
            r == (self.inner is Unloaded),
    {
        self.inner.is_unloaded()
    }

    /// Whether a bare key is held.
    pub fn is_key(&self) -> (r: bool)
        ensures
            r == (self.inner is Key),
    {
        self.inner.is_key()
    }

    /// Whether loaded data is held.
    pub fn is_loaded(&self) -> (r: bool)
        ensures
            r == (self.inner is Loaded),
    {
        self.inner.is_loaded()
    }

    /// Drops whatever is held and stores the given loaded value.
    pub fn set_value(&mut self, value: V)
        ensures
            final(self).inner == LoadedValue::<V, K>::Loaded(value),
            final(self).allow_value_serialize == old(self).allow_value_serialize,
    {
        self.inner.set_value(value);
    }

    /// Drops whatever is held and stores the given key.
    pub fn set_key(&mut self, identifier: K)
        ensures
            final(self).inner == LoadedValue::<V, K>::Key(identifier),
            final(self).allow_value_serialize == old(self).allow_value_serialize,
    {
        self.inner.set_key(identifier);
    }

    /// Drops whatever is held.
    pub fn unload(&mut self)
        ensures
            final(self).inner is Unloaded,
            final(self).allow_value_serialize == old(self).allow_value_serialize,
    {
        self.inner.unload();
    }

    /// Takes the owned value, leaving `Unloaded` behind; any other state is
    /// untouched and yields `None`.
    pub fn take_value(&mut self) -> (r: Option<V>)
        ensures
            match old(self).inner {
                LoadedValue::Loaded(v) => r == Some(v) && final(self).inner is Unloaded,
                _ => r is None && final(self).inner == old(self).inner,
            },
            final(self).allow_value_serialize == old(self).allow_value_serialize,
    {
        if !self.inner.is_loaded() {
            return None;
        }
        let taken = self.inner.take();
        taken.into_value()
    }

    /// Takes the owned key, leaving `Unloaded` behind; any other state is
    /// untouched and yields `None`.
    pub fn take_key(&mut self) -> (r: Option<K>)
        ensures
            match old(self).inner {
                LoadedValue::Key(k) => r == Some(k) && final(self).inner is Unloaded,
                _ => r is None && final(self).inner == old(self).inner,
            },
            final(self).allow_value_serialize == old(self).allow_value_serialize,
    {
        if !self.inner.is_key() {
            return None;
        }
        let taken = self.inner.take();
        taken.into_key()
    }

    /// Maps the loaded value (if any) through `mapper`; a key or an unloaded
    /// state carries over unchanged. The result uses the default
    /// serialization policy.
    pub fn map<NEWV, F: FnOnce(V) -> NEWV>(self, mapper: F) -> (r: ForeignKey<NEWV, K>)
        requires
            self.inner matches LoadedValue::Loaded(v) ==> mapper.requires((v,)),
        ensures
            match self.inner {
                LoadedValue::Loaded(v) => r.inner matches LoadedValue::Loaded(nv)
                    && mapper.ensures((v,), nv),
                LoadedValue::Key(k) => r.inner == LoadedValue::<NEWV, K>::Key(k),
                LoadedValue::Unloaded => r.inner is Unloaded,
            },
            !r.allow_value_serialize,
    {
        match self.inner {
            LoadedValue::Loaded(v) => ForeignKey::new_value(mapper(v)),
            LoadedValue::Key(k) => ForeignKey::new_key(k),
            LoadedValue::Unloaded => ForeignKey::new(),
        }
    }

    /// Converts the loaded value's type through `From`; a key or an unloaded
    /// state carries over unchanged.
    pub fn convert<NEWV: From<V>>(self) -> (r: ForeignKey<NEWV, K>)
        ensures
            self.inner matches LoadedValue::Loaded(v) ==> (r.inner matches LoadedValue::Loaded(
                nv,
            ) && (<NEWV as vstd::std_specs::convert::FromSpec<V>>::obeys_from_spec() ==> nv
                == <NEWV as vstd::std_specs::convert::FromSpec<V>>::from_spec(v))),
            self.inner matches LoadedValue::Key(k) ==> r.inner == LoadedValue::<NEWV, K>::Key(
                k,
            ),
            self.inner is Unloaded ==> r.inner is Unloaded,
            !r.allow_value_serialize,
    {
        match self.inner {
            LoadedValue::Loaded(v) => ForeignKey::new_value(NEWV::from(v)),
            LoadedValue::Key(k) => ForeignKey::new_key(k),
            LoadedValue::Unloaded => ForeignKey::new(),
        }
    }

    /// Whether serializing may emit the full loaded value.
    pub fn allows_value_serialize(&self) -> (r: bool)
        ensures
            r == self.allow_value_serialize,
    {
        self.allow_value_serialize
    }
}

impl<V: IntoKey<K>, K> ForeignKey<V, K> {
    /// Collapses a loaded value to its key in place; a key or an unloaded
    /// state is untouched. Surfaces the [`IntoKeyError`] when the loaded
    /// value has no key to offer.
    pub fn as_key(&mut self) -> (r: Result<(), IntoKeyError>)
        ensures
            old(self).inner is Unloaded ==> final(self).inner == old(self).inner && r is Ok,
            old(self).inner is Key ==> final(self).inner == old(self).inner && r is Ok,
            old(self).inner is Loaded && r is Ok ==> final(self).inner is Key,
            r is Err ==> final(self).inner == old(self).inner,
            final(self).allow_value_serialize == old(self).allow_value_serialize,
    {
        let key = match self.inner.value() {
            Some(value) => {
                match value.into_key() {
                    Ok(k) => Some(k),
                    Err(e) => {
                        return Err(e);
                    },
                }
            },
            None => None,
        };
        if let Some(k) = key {
            self.inner.set_key(k);
        }
        Ok(())
    }

    /// A key standing for the current state (see [`LoadedValue::to_key`]).
    pub fn to_key(&self) -> (r: Result<Option<K>, IntoKeyError>) where K: Clone
        ensures
            self.inner is Unloaded ==> (r matches Ok(o) && o is None),
            self.inner is Key ==> (r matches Ok(o) && o is Some),
            self.inner is Loaded ==> !(r matches Ok(o) && o is None),
    {
        self.inner.to_key()
    }
}

impl<V, K> KeySerializeControl for ForeignKey<V, K> {
    fn allow_value_serialize(&mut self)
        ensures
            final(self).allow_value_serialize,
            final(self).inner == old(self).inner,
    {
        self.allow_value_serialize = true;
    }

    fn disallow_value_serialize(&mut self)
        ensures
            !final(self).allow_value_serialize,
            final(self).inner == old(self).inner,
    {
        self.allow_value_serialize = false;
    }
}

impl<V, K> ForeignKey<Vec<V>, Vec<K>> {
    /// The length of the loaded values or keys; zero when unloaded.
    pub fn len(&self) -> (r: usize)
        ensures
            match self.inner {
                LoadedValue::Loaded(vs) => r == vs@.len(),
                LoadedValue::Key(ks) => r == ks@.len(),
                LoadedValue::Unloaded => r == 0,
            },
    {
        match &self.inner {
            LoadedValue::Loaded(vs) => vs.len(),
            LoadedValue::Key(ks) => ks.len(),
            LoadedValue::Unloaded => 0,
        }
    }

    /// The length of the loaded values or keys, or `None` when unloaded.
    pub fn len_loaded(&self) -> (r: Option<usize>)
        ensures
            match self.inner {
                LoadedValue::Loaded(vs) => r == Some(vs@.len() as usize),
                LoadedValue::Key(ks) => r == Some(ks@.len() as usize),
                LoadedValue::Unloaded => r is None,
            },
    {
        match &self.inner {
            LoadedValue::Loaded(vs) => Some(vs.len()),
            LoadedValue::Key(ks) => Some(ks.len()),
            LoadedValue::Unloaded => None,
        }
    }

    /// Appends a value: an unloaded reference becomes `Loaded([value])`, a
    /// key list receives the value's key, a value list receives the value.
    pub fn push(&mut self, value: V) -> (r: Result<(), IntoKeyError>) where V: IntoKey<K>
        ensures
            old(self).inner is Unloaded ==> (r is Ok && (final(self).inner matches
                LoadedValue::Loaded(vs) && vs@ == seq![value])),
            old(self).inner matches LoadedValue::Loaded(vs) ==> (r is Ok && (final(self).inner
                matches LoadedValue::Loaded(nvs) && nvs@ == vs@.push(value))),
            old(self).inner matches LoadedValue::Key(ks) ==> match r {
                Ok(()) => final(self).inner matches LoadedValue::Key(nks) && nks@.len()
                    == ks@.len() + 1 && nks@.take(ks@.len() as int) == ks@,
                Err(_) => final(self).inner == old(self).inner,
            },
            final(self).allow_value_serialize == old(self).allow_value_serialize,
    {
        let taken = self.inner.take();
        match taken {
            LoadedValue::Unloaded => {
                let mut vs: Vec<V> = Vec::new();
                vs.push(value);
                proof {
                    assert(vs@ =~= seq![value]);
                }
                self.inner.set_value(vs);
                Ok(())
            },
            LoadedValue::Loaded(mut vs) => {
                vs.push(value);
                self.inner.set_value(vs);
                Ok(())
            },
            LoadedValue::Key(mut ks) => {
                match value.into_key() {
                    Ok(k) => {
                        let ghost before = ks@;
                        ks.push(k);
                        proof {
                            assert(ks@.take(before.len() as int) =~= before);
                        }
                        self.inner.set_key(ks);
                        Ok(())
                    },
                    Err(e) => {
                        self.inner.set_key(ks);
                        Err(e)
                    },
                }
            },
        }
    }

    /// Removes the last element: from a key list the last key, from a value
    /// list the last value reduced to its key; an unloaded reference yields
    /// `Ok(None)`.
    pub fn pop(&mut self) -> (r: Result<Option<K>, IntoKeyError>) where V: IntoKey<K>
        ensures
            old(self).inner is Unloaded ==> (r matches Ok(o) && o is None && final(self).inner
                == old(self).inner),
            old(self).inner matches LoadedValue::Key(ks) ==> ((ks@.len() == 0 ==> (r matches Ok(
                o,
            ) && o is None)) && (ks@.len() > 0 ==> (r == Ok::<Option<K>, IntoKeyError>(
                Some(ks@.last()),
            ) && (final(self).inner matches LoadedValue::Key(nks) && nks@ == ks@.drop_last())))),
            old(self).inner matches LoadedValue::Loaded(vs) ==> ((vs@.len() == 0 ==> (r matches
                Ok(o) && o is None)) && (vs@.len() > 0 && r is Ok ==> (final(self).inner matches
                LoadedValue::Loaded(nvs) && nvs@ == vs@.drop_last()))),
            final(self).allow_value_serialize == old(self).allow_value_serialize,
    {
        let taken = self.inner.take();
        match taken {
            LoadedValue::Unloaded => Ok(None),
            LoadedValue::Key(mut ks) => {
                let popped = ks.pop();
                self.inner.set_key(ks);
                Ok(popped)
            },
            LoadedValue::Loaded(mut vs) => {
                let popped = vs.pop();
                match popped {
                    Some(v) => {
                        match v.into_key() {
                            Ok(k) => {
                                self.inner.set_value(vs);
                                Ok(Some(k))
                            },
                            Err(e) => {
                                self.inner.set_value(vs);
                                Err(e)
                            },
                        }
                    },
                    None => {
                        self.inner.set_value(vs);
                        Ok(None)
                    },
                }
            },
        }
    }

    /// Converts a loaded vector element-wise through `From`; a key list or an
    /// unloaded state carries over unchanged.
    pub fn convert_vec<NEWV: From<V>>(self) -> (r: ForeignKey<Vec<NEWV>, Vec<K>>)
        ensures
            self.inner is Loaded ==> r.inner is Loaded,
            self.inner matches LoadedValue::Key(ks) ==> r.inner == LoadedValue::<
                Vec<NEWV>,
                Vec<K>,
            >::Key(ks),
            self.inner is Unloaded ==> r.inner is Unloaded,
            !r.allow_value_serialize,
    {
        match self.inner {
            LoadedValue::Loaded(vs) => {
                let mut converted: Vec<NEWV> = Vec::new();
                let mut rest = vs;
                while rest.len() > 0
                    decreases rest@.len(),
                {
                    let v = rest.remove(0);
                    converted.push(NEWV::from(v));
                }
                ForeignKey::new_value(converted)
            },
            LoadedValue::Key(ks) => ForeignKey::new_key(ks),
            LoadedValue::Unloaded => ForeignKey::new(),
        }
    }
}

} // verus!
