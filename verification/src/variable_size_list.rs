//! Variable-size list columns: the monotonic offset encoding.
//!
//! Rows of varying length are stored as a flattened child column plus a
//! monotonically non-decreasing offsets sequence with one more entry than
//! there are rows; row `i` spans child elements `offsets[i] .. offsets[i+1]`.
//! The nullable variant pairs the offsets with a presence bitmap; an absent
//! row has zero width and its presence bit cleared. Presence must be read
//! from the bitmap, never inferred from offset equality: a present-but-empty
//! row looks the same in the offsets alone.

use vstd::prelude::*;

use crate::array::extend_rows;
use crate::array::models;
use crate::array::Array;
use crate::bitmap::Bitmap;
use crate::bitmap::BitmapRef;
use crate::bitmap::BitmapRefMut;
use crate::validity::Validity;

verus! {

/// Array with variable-size list elements.
pub struct VariableSizeListArray<A: Array> {
    /// The offsets; always one longer than the number of rows.
    pub offsets: Vec<usize>,
    /// The flattened child column holding every element of every row.
    pub data: A,
}

impl<A: Array> Array for VariableSizeListArray<A> {
    type Item = Vec<A::Item>;

    type Model = Seq<A::Model>;

    open spec fn item_model(item: Vec<A::Item>) -> Seq<A::Model> {
        models::<A>(item@)
    }

    open spec fn wf(&self) -> bool {
        &&& self.data.wf()
        &&& self.offsets@.len() >= 1
        &&& self.offsets@[0] == 0
        &&& (forall|i: int, j: int|
            0 <= i <= j < self.offsets@.len() ==> self.offsets@[i] <= self.offsets@[j])
        &&& self.offsets@.last() == self.data.rows().len()
    }

    open spec fn rows(&self) -> Seq<Seq<A::Model>> {
        Seq::new(
            (self.offsets@.len() - 1) as nat,
            |i: int|
                self.data.rows().subrange(
                    self.offsets@[i] as int,
                    self.offsets@[i + 1] as int,
                ),
        )
    }

    fn empty() -> (r: Self) {
        let mut offsets: Vec<usize> = Vec::new();
        offsets.push(0);
        let r = VariableSizeListArray { offsets, data: A::empty() };
        proof {
            assert(r.rows() =~= Seq::<Seq<A::Model>>::empty());
        }
        r
    }

    fn push_row(&mut self, item: Vec<A::Item>) {
        extend_rows(&mut self.data, item);
        let end = self.data.len();
        self.offsets.push(end);
        proof {
            assert forall|i: int| 0 <= i < old(self).rows().len() implies self.rows()[i] == old(
                self,
            ).rows()[i] by {
                assert(self.offsets@[i + 1] <= old(self).data.rows().len());
                assert(self.rows()[i] =~= old(self).rows()[i]);
            }
            assert(self.rows().last() =~= Self::item_model(item));
            assert(self.rows() =~= old(self).rows().push(Self::item_model(item)));
        }
    }

    fn len(&self) -> (r: usize) {
        self.offsets.len() - 1
    }
}

/// Array with variable-size list elements and per-row null tracking. The
/// offsets are paired with the presence bitmap; an absent row repeats the
/// previous offset and has its presence bit cleared.
pub struct NullableVariableSizeListArray<A: Array> {
    /// The offsets and the per-row presence bitmap.
    pub offsets: Validity<Vec<usize>>,
    /// The flattened child column holding every element of every present row.
    pub data: A,
}

impl<A: Array> Array for NullableVariableSizeListArray<A> {
    type Item = Option<Vec<A::Item>>;

    type Model = Option<Seq<A::Model>>;

    open spec fn item_model(item: Option<Vec<A::Item>>) -> Option<Seq<A::Model>> {
        match item {
            Some(row) => Some(models::<A>(row@)),
            None => None,
        }
    }

    open spec fn wf(&self) -> bool {
        &&& self.data.wf()
        &&& self.offsets.data@.len() >= 1
        &&& self.offsets.data@[0] == 0
        &&& (forall|i: int, j: int|
            0 <= i <= j < self.offsets.data@.len() ==> self.offsets.data@[i]
                <= self.offsets.data@[j])
        &&& self.offsets.data@.last() == self.data.rows().len()
        &&& self.offsets.validity.packed()
        &&& self.offsets.validity.offset == 0
        &&& self.offsets.validity@.len() == self.offsets.data@.len() - 1
        &&& (forall|i: int|
            0 <= i < self.offsets.validity@.len() && !self.offsets.validity@[i]
                ==> self.offsets.data@[i + 1] == self.offsets.data@[i])
    }

    open spec fn rows(&self) -> Seq<Option<Seq<A::Model>>> {
        Seq::new(
            self.offsets.validity@.len(),
            |i: int|
                if self.offsets.validity@[i] {
                    Some(
                        self.data.rows().subrange(
                            self.offsets.data@[i] as int,
                            self.offsets.data@[i + 1] as int,
                        ),
                    )
                } else {
                    None
                },
        )
    }

    fn empty() -> (r: Self) {
        let mut offsets: Vec<usize> = Vec::new();
        offsets.push(0);
        let r = NullableVariableSizeListArray {
            offsets: Validity { data: offsets, validity: Bitmap::default() },
            data: A::empty(),
        };
        proof {
            assert(r.rows() =~= Seq::<Option<Seq<A::Model>>>::empty());
        }
        r
    }

    fn push_row(&mut self, item: Option<Vec<A::Item>>) {
        let present = match item {
            Some(row) => {
                extend_rows(&mut self.data, row);
                true
            },
            None => false,
        };
        let end = self.data.len();
        self.offsets.data.push(end);
        let entries = self.offsets.data.len();
        proof {
            assert(old(self).offsets.validity.bits < entries - 1 + 1);
        }
        self.offsets.validity.push(present);
        proof {
            assert forall|i: int| 0 <= i < old(self).rows().len() implies self.rows()[i] == old(
                self,
            ).rows()[i] by {
                assert(self.offsets.data@[i + 1] <= old(self).data.rows().len());
                if self.offsets.validity@[i] {
                    assert(self.rows()[i] matches Some(row) && row =~= self.data.rows().subrange(
                        self.offsets.data@[i] as int,
                        self.offsets.data@[i + 1] as int,
                    ));
                    assert(old(self).rows()[i] matches Some(row) && row =~= old(
                        self,
                    ).data.rows().subrange(
                        self.offsets.data@[i] as int,
                        self.offsets.data@[i + 1] as int,
                    ));
                    assert(self.data.rows().subrange(
                        self.offsets.data@[i] as int,
                        self.offsets.data@[i + 1] as int,
                    ) =~= old(self).data.rows().subrange(
                        self.offsets.data@[i] as int,
                        self.offsets.data@[i + 1] as int,
                    ));
                }
            }
            if item is Some {
                assert(self.rows().last() matches Some(row) && row =~= models::<A>(
                    item->Some_0@,
                ));
            }
            assert(self.rows() =~= old(self).rows().push(Self::item_model(item)));
        }
    }

    fn len(&self) -> (r: usize) {
        self.offsets.validity.len()
    }
}

impl<A: Array> NullableVariableSizeListArray<A> {
    /// Whether the row at `index` is present; `None` when out of bounds.
    pub fn is_valid(&self, index: usize) -> (r: Option<bool>)
        requires
            self.wf(),
        ensures
            r == if index < self.rows().len() {
                Some(self.rows()[index as int] is Some)
            } else {
                None::<bool>
            },
    {
        self.offsets.is_valid(index)
    }

    /// Whether the row at `index` is absent; `None` when out of bounds.
    pub fn is_null(&self, index: usize) -> (r: Option<bool>)
        requires
            self.wf(),
        ensures
            r == if index < self.rows().len() {
                Some(self.rows()[index as int] is None)
            } else {
                None::<bool>
            },
    {
        self.offsets.is_null(index)
    }
}

impl<A: Array> BitmapRef for NullableVariableSizeListArray<A> {
    open spec fn spec_bitmap(&self) -> Bitmap {
        self.offsets.validity
    }

    fn bitmap_ref(&self) -> (r: &Bitmap) {
        &self.offsets.validity
    }
}

impl<A: Array> BitmapRefMut for NullableVariableSizeListArray<A> {
    fn bitmap_ref_mut(&mut self) -> (r: &mut Bitmap) {
        &mut self.offsets.validity
    }
}

impl<A: Array> Default for VariableSizeListArray<A> {
    /// The empty list column.
    fn default() -> (r: Self)
        ensures
            r.wf(),
            r.rows() == Seq::<Seq<A::Model>>::empty(),
    {
        <Self as Array>::empty()
    }
}

impl<A: Array> Default for NullableVariableSizeListArray<A> {
    /// The empty nullable list column.
    fn default() -> (r: Self)
        ensures
            r.wf(),
            r.rows() == Seq::<Option<Seq<A::Model>>>::empty(),
    {
        <Self as Array>::empty()
    }
}

/// Monotonic offsets: for any well-formed list array, the offsets sequence
/// is non-decreasing, has one more entry than there are rows, starts at
/// zero, and each consecutive difference equals the element count of the
/// corresponding row.
pub proof fn lemma_offsets_shape<A: Array>(array: VariableSizeListArray<A>)
    requires
        array.wf(),
    ensures
        array.offsets@.len() == array.rows().len() + 1,
        array.offsets@[0] == 0,
        forall|i: int, j: int|
            0 <= i <= j < array.offsets@.len() ==> array.offsets@[i] <= array.offsets@[j],
        forall|i: int|
            0 <= i < array.rows().len() ==> array.offsets@[i + 1] - array.offsets@[i]
                == array.rows()[i].len(),
{
    assert forall|i: int| 0 <= i < array.rows().len() implies array.offsets@[i + 1]
        - array.offsets@[i] == array.rows()[i].len() by {
        assert(array.offsets@[i + 1] <= array.offsets@[array.offsets@.len() - 1]);
    }
}

/// Monotonic offsets for the nullable variant: as [`lemma_offsets_shape`],
/// with an absent row counting zero elements.
pub proof fn lemma_nullable_offsets_shape<A: Array>(array: NullableVariableSizeListArray<A>)
    requires
        array.wf(),
    ensures
        array.offsets.data@.len() == array.rows().len() + 1,
        array.offsets.data@[0] == 0,
        forall|i: int, j: int|
            0 <= i <= j < array.offsets.data@.len() ==> array.offsets.data@[i]
                <= array.offsets.data@[j],
        forall|i: int|
            0 <= i < array.rows().len() ==> array.offsets.data@[i + 1] - array.offsets.data@[i]
                == match #[trigger] array.rows()[i] {
                    Some(row) => row.len(),
                    None => 0,
                },
{
    assert forall|i: int| 0 <= i < array.rows().len() implies array.offsets.data@[i + 1]
        - array.offsets.data@[i] == (match #[trigger] array.rows()[i] {
        Some(row) => row.len(),
        None => 0nat,
    }) by {
        assert(array.offsets.data@[i + 1] <= array.offsets.data@[array.offsets.data@.len() - 1]);
    }
}

} // verus!
