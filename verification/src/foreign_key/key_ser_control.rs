//! Opting a foreign reference in or out of full-value serialization.

use vstd::prelude::*;

verus! {

/// Controls whether a holder may serialize its full loaded value. By default
/// a foreign reference serializes only the key reduced from its value; these
/// methods flip that policy explicitly. What the flag means for one holder is
/// stated on the implementing type (see
/// [`ForeignKey`](crate::foreign_key::ForeignKey)).
pub trait KeySerializeControl {
    /// Allow the potential loaded value to be serialized in full.
    fn allow_value_serialize(&mut self);

    /// Revert to the default policy of serializing only the key.
    fn disallow_value_serialize(&mut self);
}

/// A vector of controllable holders is controlled element-wise.
impl<T: KeySerializeControl> KeySerializeControl for Vec<T> {
    fn allow_value_serialize(&mut self) {
        let mut done: Vec<T> = Vec::new();
        let mut rest: Vec<T> = Vec::new();
        core::mem::swap(&mut rest, self);
        while rest.len() > 0
            decreases rest@.len(),
        {
            let mut item = rest.remove(0);
            item.allow_value_serialize();
            done.push(item);
        }
        core::mem::swap(&mut done, self);
    }

    fn disallow_value_serialize(&mut self) {
        let mut done: Vec<T> = Vec::new();
        let mut rest: Vec<T> = Vec::new();
        core::mem::swap(&mut rest, self);
        while rest.len() > 0
            decreases rest@.len(),
        {
            let mut item = rest.remove(0);
            item.disallow_value_serialize();
            done.push(item);
        }
        core::mem::swap(&mut done, self);
    }
}

} // verus!
