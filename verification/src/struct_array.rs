//! Struct-of-arrays columns.
//!
//! A record type is stored as one independently typed column per field, all
//! sharing one logical row count; the row count is not stored separately, it
//! is the common length of the field columns. A pair of columns is itself a
//! column set whose rows are pairs; wider records nest pairs, so structs of
//! any width, struct-of-list and list-of-struct all come from the same
//! composition.

use vstd::prelude::*;

use crate::array::Array;
use crate::bitmap::Bitmap;
use crate::bitmap::BitmapRef;
use crate::bitmap::BitmapRefMut;
use crate::buffer::Primitive;
use crate::fixed_size_primitive::FixedSizePrimitiveArray;
use crate::fixed_size_primitive::NullArray;
use crate::fixed_size_primitive::NullableFixedSizePrimitiveArray;
use crate::fixed_size_primitive::NullableNullArray;
use crate::variable_size_list::VariableSizeListArray;

verus! {

impl<A: Array, B: Array> Array for (A, B) {
    type Item = (A::Item, B::Item);

    type Model = (A::Model, B::Model);

    open spec fn item_model(item: (A::Item, B::Item)) -> (A::Model, B::Model) {
        (A::item_model(item.0), B::item_model(item.1))
    }

    open spec fn wf(&self) -> bool {
        &&& self.0.wf()
        &&& self.1.wf()
        &&& self.0.rows().len() == self.1.rows().len()
    }

    open spec fn rows(&self) -> Seq<(A::Model, B::Model)> {
        Seq::new(self.0.rows().len(), |i: int| (self.0.rows()[i], self.1.rows()[i]))
    }

    fn empty() -> (r: Self) {
        let r = (A::empty(), B::empty());
        proof {
            assert(r.rows() =~= Seq::<(A::Model, B::Model)>::empty());
        }
        r
    }

    fn push_row(&mut self, item: (A::Item, B::Item)) {
        let (first, second) = item;
        self.0.push_row(first);
        self.1.push_row(second);
        proof {
            assert(self.rows() =~= old(self).rows().push(Self::item_model(item)));
        }
    }

    fn len(&self) -> (r: usize) {
        self.0.len()
    }
}

/// Associates an application element type with the column kind that stores
/// it. The mapping is declared once per element type and reused everywhere
/// the type appears, including nested inside lists and structs.
pub trait ArrayType: Sized {
    /// The column kind storing elements of this type.
    type Array: Array<Item = Self>;

    /// The filler value stored for this type in absent rows of a nullable
    /// struct column.
    fn fill_item() -> Self;
}

impl ArrayType for u8 {
    type Array = FixedSizePrimitiveArray<u8>;

    fn fill_item() -> Self {
        0
    }
}

impl ArrayType for u16 {
    type Array = FixedSizePrimitiveArray<u16>;

    fn fill_item() -> Self {
        0
    }
}

impl ArrayType for u32 {
    type Array = FixedSizePrimitiveArray<u32>;

    fn fill_item() -> Self {
        0
    }
}

impl ArrayType for u64 {
    type Array = FixedSizePrimitiveArray<u64>;

    fn fill_item() -> Self {
        0
    }
}

impl ArrayType for u128 {
    type Array = FixedSizePrimitiveArray<u128>;

    fn fill_item() -> Self {
        0
    }
}

impl ArrayType for i32 {
    type Array = FixedSizePrimitiveArray<i32>;

    fn fill_item() -> Self {
        0
    }
}

impl ArrayType for i64 {
    type Array = FixedSizePrimitiveArray<i64>;

    fn fill_item() -> Self {
        0
    }
}

impl ArrayType for bool {
    type Array = FixedSizePrimitiveArray<bool>;

    fn fill_item() -> Self {
        false
    }
}

impl ArrayType for () {
    type Array = NullArray;

    fn fill_item() -> Self {
        ()
    }
}

impl<T: Primitive + ArrayType> ArrayType for Option<T> {
    type Array = NullableFixedSizePrimitiveArray<T>;

    fn fill_item() -> Self {
        None
    }
}

impl ArrayType for Option<()> {
    type Array = NullableNullArray;

    fn fill_item() -> Self {
        None
    }
}

impl<X: ArrayType, Y: ArrayType> ArrayType for Option<(X, Y)> {
    type Array = NullableStructArray<(X, Y)>;

    fn fill_item() -> Self {
        None
    }
}

impl<X: ArrayType> ArrayType for Vec<X> {
    type Array = VariableSizeListArray<X::Array>;

    fn fill_item() -> Self {
        Vec::new()
    }
}

impl<X: ArrayType, Y: ArrayType> ArrayType for (X, Y) {
    type Array = (X::Array, Y::Array);

    fn fill_item() -> Self {
        (X::fill_item(), Y::fill_item())
    }
}

/// Associates a record-shaped element type with its struct-of-arrays
/// representation: one independently typed column per declared field.
pub trait StructArrayType: Sized {
    /// The column set whose rows are this record type.
    type Columns: Array<Item = Self>;

    /// The filler record stored for absent rows of a nullable struct column.
    fn fill_record() -> Self;
}

impl<X: ArrayType, Y: ArrayType> StructArrayType for (X, Y) {
    type Columns = (X::Array, Y::Array);

    fn fill_record() -> Self {
        (X::fill_item(), Y::fill_item())
    }
}

/// A struct-of-arrays column over the record type `T`.
pub struct StructArray<T: StructArrayType> {
    /// The field columns, all of one length.
    pub columns: T::Columns,
}

impl<T: StructArrayType> Array for StructArray<T> {
    type Item = T;

    type Model = <T::Columns as Array>::Model;

    open spec fn item_model(item: T) -> Self::Model {
        <T::Columns as Array>::item_model(item)
    }

    open spec fn wf(&self) -> bool {
        self.columns.wf()
    }

    open spec fn rows(&self) -> Seq<Self::Model> {
        self.columns.rows()
    }

    fn empty() -> (r: Self) {
        StructArray { columns: <T::Columns as Array>::empty() }
    }

    fn push_row(&mut self, item: T) {
        self.columns.push_row(item);
    }

    fn len(&self) -> (r: usize) {
        self.columns.len()
    }
}

/// A struct-of-arrays column over the record type `T` with per-row null
/// tracking; absent rows store the filler record and a cleared presence bit.
pub struct NullableStructArray<T: StructArrayType> {
    /// The field columns, all of one length.
    pub columns: T::Columns,
    /// The per-row presence bitmap.
    pub validity: Bitmap,
}

impl<T: StructArrayType> Array for NullableStructArray<T> {
    type Item = Option<T>;

    type Model = Option<<T::Columns as Array>::Model>;

    open spec fn item_model(item: Option<T>) -> Self::Model {
        match item {
            Some(record) => Some(<T::Columns as Array>::item_model(record)),
            None => None,
        }
    }

    open spec fn wf(&self) -> bool {
        &&& self.columns.wf()
        &&& self.validity.packed()
        &&& self.validity.offset == 0
        &&& self.validity@.len() == self.columns.rows().len()
    }

    open spec fn rows(&self) -> Seq<Self::Model> {
        Seq::new(
            self.validity@.len(),
            |i: int|
                if self.validity@[i] {
                    Some(self.columns.rows()[i])
                } else {
                    None
                },
        )
    }

    fn empty() -> (r: Self) {
        let r = NullableStructArray {
            columns: <T::Columns as Array>::empty(),
            validity: Bitmap::default(),
        };
        proof {
            assert(r.rows() =~= Seq::<Self::Model>::empty());
        }
        r
    }

    fn push_row(&mut self, item: Option<T>) {
        let present = match item {
            Some(record) => {
                self.columns.push_row(record);
                true
            },
            None => {
                self.columns.push_row(T::fill_record());
                false
            },
        };
        let stored = self.columns.len();
        proof {
            assert(old(self).validity.bits < stored);
        }
        self.validity.push(present);
        proof {
            assert(self.rows() =~= old(self).rows().push(Self::item_model(item)));
        }
    }

    fn len(&self) -> (r: usize) {
        self.validity.len()
    }
}

impl<T: StructArrayType> NullableStructArray<T> {
    /// Whether the row at `index` is present; `None` when out of bounds.
    pub fn is_valid(&self, index: usize) -> (r: Option<bool>)
        requires
            self.wf(),
        ensures
            r == if index < self.rows().len() {
                Some(self.rows()[index as int] is Some)
            } else {
                None::<bool>
            },
    {
        self.validity.get(index)
    }

    /// Whether the row at `index` is absent; `None` when out of bounds.
    pub fn is_null(&self, index: usize) -> (r: Option<bool>)
        requires
            self.wf(),
        ensures
            r == if index < self.rows().len() {
                Some(self.rows()[index as int] is None)
            } else {
                None::<bool>
            },
    {
        match self.validity.get(index) {
            Some(bit) => Some(!bit),
            None => None,
        }
    }
}

impl<T: StructArrayType> BitmapRef for NullableStructArray<T> {
    open spec fn spec_bitmap(&self) -> Bitmap {
        self.validity
    }

    fn bitmap_ref(&self) -> (r: &Bitmap) {
        &self.validity
    }
}

impl<T: StructArrayType> BitmapRefMut for NullableStructArray<T> {
    fn bitmap_ref_mut(&mut self) -> (r: &mut Bitmap) {
        &mut self.validity
    }
}

/// Struct column independence: in a well-formed column set, each field
/// column holds exactly one element per record, and element `j` of a field
/// column is the corresponding field of record `j`, whatever the other
/// fields hold. Together with the contract of [`crate::array::from_rows`],
/// building from any sequence of records gives each field column the length
/// of that sequence and element `j` of field column `i` equal to field `i`
/// of record `j`.
pub proof fn lemma_struct_column_independence<A: Array, B: Array>(columns: (A, B))
    requires
        columns.wf(),
    ensures
        columns.0.rows().len() == columns.rows().len(),
        columns.1.rows().len() == columns.rows().len(),
        forall|j: int|
            0 <= j < columns.rows().len() ==> columns.0.rows()[j] == (
            #[trigger] columns.rows()[j]).0,
        forall|j: int|
            0 <= j < columns.rows().len() ==> columns.1.rows()[j] == (
            #[trigger] columns.rows()[j]).1,
{
}

} // verus!
