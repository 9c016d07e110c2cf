//! Null tracking for array storage.
//!
//! Every array kind that supports nullable elements delegates its null
//! tracking to [`Validity`]: a wrapped storage representation paired with a
//! presence [`Bitmap`] whose length always equals the wrapped values'
//! length. Non-nullable array kinds use the bare storage representation and
//! no bitmap, so no array kind carries a "maybe has a bitmap" field.

use vstd::prelude::*;

use crate::bitmap::Bitmap;
use crate::bitmap::BitmapRef;
use crate::bitmap::BitmapRefMut;
use crate::buffer::Length;

verus! {

/// Nullable storage: wrapped values paired with a presence bitmap.
///
/// Bit `i` of `validity` is set exactly when element `i` of `data` is
/// present; absent elements hold a filler value in `data`.
pub struct Validity<T> {
    /// The wrapped storage, holding one value per element.
    pub data: T,
    /// The presence bitmap.
    pub validity: Bitmap,
}

impl<T: Length> Validity<T> {
    /// The presence bitmap is packed and tracks exactly one bit per wrapped
    /// element.
    pub open spec fn wf(&self) -> bool {
        &&& self.validity.packed()
        &&& self.validity.offset == 0
        &&& self.validity@.len() == self.data.spec_len()
    }
}

impl<T> Validity<T> {
    /// Whether the element at `index` is present; `None` when the index is
    /// out of bounds.
    pub fn is_valid(&self, index: usize) -> (r: Option<bool>)
        requires
            self.validity.wf(),
        ensures
            r == if index < self.validity@.len() {
                Some(self.validity@[index as int])
            } else {
                None::<bool>
            },
    {
        self.validity.get(index)
    }

    /// Whether the element at `index` is absent; `None` when the index is
    /// out of bounds.
    pub fn is_null(&self, index: usize) -> (r: Option<bool>)
        requires
            self.validity.wf(),
        ensures
            r == if index < self.validity@.len() {
                Some(!self.validity@[index as int])
            } else {
                None::<bool>
            },
    {
        match self.validity.get(index) {
            Some(bit) => Some(!bit),
            None => None,
        }
    }
}

impl<T> BitmapRef for Validity<T> {
    open spec fn spec_bitmap(&self) -> Bitmap {
        self.validity
    }

    fn bitmap_ref(&self) -> (r: &Bitmap) {
        &self.validity
    }
}

impl<T> BitmapRefMut for Validity<T> {
    fn bitmap_ref_mut(&mut self) -> (r: &mut Bitmap) {
        &mut self.validity
    }
}

impl<T: Length> Length for Validity<T> {
    open spec fn spec_len(&self) -> nat {
        self.validity@.len()
    }

    fn len(&self) -> (r: usize) {
        self.validity.len()
    }
}

} // verus!
