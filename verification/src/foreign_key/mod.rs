//! Foreign references: a tri-state value (loaded object, bare key, absent)
//! with explicit transitions and a default collapse-to-key serialization
//! policy.

mod foreign;
mod into_key;
mod key_ser_control;
mod loaded_value;

pub use foreign::ForeignKey;
pub use into_key::IntoKey;
pub use into_key::IntoKeyError;
pub use key_ser_control::KeySerializeControl;
pub use loaded_value::LoadedValue;

use vstd::prelude::*;

verus! {

/// A [`ForeignKey`] whose key type is a `String`.
pub type Foreign<T> = ForeignKey<T, String>;

} // verus!
