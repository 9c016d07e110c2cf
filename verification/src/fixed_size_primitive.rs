//! Columns of fixed-width primitive values, and the zero-width null column.

use vstd::prelude::*;

use crate::array::Array;
use crate::bitmap::Bitmap;
use crate::bitmap::BitmapRef;
use crate::bitmap::BitmapRefMut;
use crate::buffer::Primitive;
use crate::validity::Validity;

verus! {

/// A column of fixed-width primitive values, one buffer element per row.
pub struct FixedSizePrimitiveArray<T: Primitive>(pub Vec<T>);

impl<T: Primitive> Array for FixedSizePrimitiveArray<T> {
    type Item = T;

    type Model = T;

    open spec fn item_model(item: T) -> T {
        item
    }

    open spec fn wf(&self) -> bool {
        true
    }

    open spec fn rows(&self) -> Seq<T> {
        self.0@
    }

    fn empty() -> (r: Self) {
        FixedSizePrimitiveArray(Vec::new())
    }

    fn push_row(&mut self, item: T) {
        self.0.push(item);
    }

    fn len(&self) -> (r: usize) {
        self.0.len()
    }
}

impl<T: Primitive> FixedSizePrimitiveArray<T> {
    /// Reads the stored values back out, in insertion order.
    pub fn to_vec(&self) -> (r: Vec<T>)
        ensures
            r@ == self.rows(),
    {
        let mut r: Vec<T> = Vec::new();
        let mut i: usize = 0;
        while i < self.0.len()
            invariant
                i <= self.0@.len(),
                r@ == self.0@.subrange(0, i as int),
            decreases self.0@.len() - i,
        {
            r.push(self.0[i]);
            i = i + 1;
            proof {
                assert(r@ =~= self.0@.subrange(0, i as int));
            }
        }
        proof {
            assert(self.0@.subrange(0, self.0@.len() as int) =~= self.0@);
        }
        r
    }
}

/// A nullable column of fixed-width primitive values: a value buffer paired
/// with a presence bitmap. Absent rows hold the filler value.
pub struct NullableFixedSizePrimitiveArray<T: Primitive>(pub Validity<Vec<T>>);

impl<T: Primitive> Array for NullableFixedSizePrimitiveArray<T> {
    type Item = Option<T>;

    type Model = Option<T>;

    open spec fn item_model(item: Option<T>) -> Option<T> {
        item
    }

    open spec fn wf(&self) -> bool {
        &&& self.0.wf()
        &&& forall|i: int|
            0 <= i < self.0.validity@.len() && !self.0.validity@[i] ==> self.0.data@[i]
                == T::spec_fill()
    }

    open spec fn rows(&self) -> Seq<Option<T>> {
        Seq::new(
            self.0.validity@.len(),
            |i: int|
                if self.0.validity@[i] {
                    Some(self.0.data@[i])
                } else {
                    None
                },
        )
    }

    fn empty() -> (r: Self) {
        let r = NullableFixedSizePrimitiveArray(
            Validity { data: Vec::new(), validity: Bitmap::default() },
        );
        proof {
            assert(r.rows() =~= Seq::<Option<T>>::empty());
        }
        r
    }

    fn push_row(&mut self, item: Option<T>) {
        let present = match item {
            Some(value) => {
                self.0.data.push(value);
                true
            },
            None => {
                self.0.data.push(T::fill_value());
                false
            },
        };
        let stored = self.0.data.len();
        proof {
            assert(old(self).0.validity.bits < stored <= usize::MAX);
        }
        self.0.validity.push(present);
        proof {
            assert(self.rows() =~= old(self).rows().push(item));
        }
    }

    fn len(&self) -> (r: usize) {
        self.0.validity.len()
    }
}

impl<T: Primitive> NullableFixedSizePrimitiveArray<T> {
    /// Reads the stored rows back out, absent rows as `None`.
    pub fn to_vec(&self) -> (r: Vec<Option<T>>)
        requires
            self.wf(),
        ensures
            r@ == self.rows(),
    {
        let mut r: Vec<Option<T>> = Vec::new();
        let mut i: usize = 0;
        let n = self.0.validity.len();
        while i < n
            invariant
                self.wf(),
                n == self.0.validity@.len(),
                i <= n,
                r@ == self.rows().subrange(0, i as int),
            decreases n - i,
        {
            let row = if self.0.validity.get_unchecked(i) {
                Some(self.0.data[i])
            } else {
                None
            };
            r.push(row);
            i = i + 1;
            proof {
                assert(r@ =~= self.rows().subrange(0, i as int));
            }
        }
        proof {
            assert(self.rows().subrange(0, self.rows().len() as int) =~= self.rows());
        }
        r
    }

    /// Whether the row at `index` is present; `None` when out of bounds.
    pub fn is_valid(&self, index: usize) -> (r: Option<bool>)
        requires
            self.wf(),
        ensures
            r == if index < self.rows().len() {
                Some(self.rows()[index as int] is Some)
            } else {
                None::<bool>
            },
    {
        self.0.is_valid(index)
    }

    /// Whether the row at `index` is absent; `None` when out of bounds.
    pub fn is_null(&self, index: usize) -> (r: Option<bool>)
        requires
            self.wf(),
        ensures
            r == if index < self.rows().len() {
                Some(self.rows()[index as int] is None)
            } else {
                None::<bool>
            },
    {
        self.0.is_null(index)
    }
}

impl<T: Primitive> BitmapRef for NullableFixedSizePrimitiveArray<T> {
    open spec fn spec_bitmap(&self) -> Bitmap {
        self.0.validity
    }

    fn bitmap_ref(&self) -> (r: &Bitmap) {
        &self.0.validity
    }
}

impl<T: Primitive> BitmapRefMut for NullableFixedSizePrimitiveArray<T> {
    fn bitmap_ref_mut(&mut self) -> (r: &mut Bitmap) {
        &mut self.0.validity
    }
}

/// A column of unit values: effectively only a row count is stored.
pub struct NullArray(pub Vec<()>);

impl Array for NullArray {
    type Item = ();

    type Model = ();

    open spec fn item_model(item: ()) -> () {
        ()
    }

    open spec fn wf(&self) -> bool {
        true
    }

    open spec fn rows(&self) -> Seq<()> {
        self.0@
    }

    fn empty() -> (r: Self) {
        NullArray(Vec::new())
    }

    fn push_row(&mut self, item: ()) {
        self.0.push(item);
    }

    fn len(&self) -> (r: usize) {
        self.0.len()
    }
}

/// A nullable column of unit values: effectively only the presence bitmap is
/// stored.
pub struct NullableNullArray(pub Validity<Vec<()>>);

impl Array for NullableNullArray {
    type Item = Option<()>;

    type Model = Option<()>;

    open spec fn item_model(item: Option<()>) -> Option<()> {
        item
    }

    open spec fn wf(&self) -> bool {
        self.0.wf()
    }

    open spec fn rows(&self) -> Seq<Option<()>> {
        Seq::new(
            self.0.validity@.len(),
            |i: int|
                if self.0.validity@[i] {
                    Some(())
                } else {
                    None
                },
        )
    }

    fn empty() -> (r: Self) {
        let r = NullableNullArray(Validity { data: Vec::new(), validity: Bitmap::default() });
        proof {
            assert(r.rows() =~= Seq::<Option<()>>::empty());
        }
        r
    }

    fn push_row(&mut self, item: Option<()>) {
        self.0.data.push(());
        let stored = self.0.data.len();
        proof {
            assert(old(self).0.validity.bits < stored);
        }
        self.0.validity.push(item.is_some());
        proof {
            assert(item == Some(()) || item == None::<()>);
            assert(self.rows() =~= old(self).rows().push(item));
        }
    }

    fn len(&self) -> (r: usize) {
        self.0.validity.len()
    }
}

impl NullableNullArray {
    /// Reads the stored rows back out, absent rows as `None`.
    pub fn to_vec(&self) -> (r: Vec<Option<()>>)
        requires
            self.0.validity.wf(),
        ensures
            r@ == self.rows(),
    {
        let bits = self.0.validity.to_vec();
        let mut r: Vec<Option<()>> = Vec::new();
        let mut i: usize = 0;
        while i < bits.len()
            invariant
                bits@ == self.0.validity@,
                i <= bits@.len(),
                r@ == self.rows().subrange(0, i as int),
            decreases bits@.len() - i,
        {
            let row = if bits[i] {
                Some(())
            } else {
                None
            };
            r.push(row);
            i = i + 1;
            proof {
                assert(r@ =~= self.rows().subrange(0, i as int));
            }
        }
        proof {
            assert(self.rows().subrange(0, self.rows().len() as int) =~= self.rows());
        }
        r
    }
}

impl BitmapRef for NullableNullArray {
    open spec fn spec_bitmap(&self) -> Bitmap {
        self.0.validity
    }

    fn bitmap_ref(&self) -> (r: &Bitmap) {
        &self.0.validity
    }
}

impl BitmapRefMut for NullableNullArray {
    fn bitmap_ref_mut(&mut self) -> (r: &mut Bitmap) {
        &mut self.0.validity
    }
}

} // verus!
