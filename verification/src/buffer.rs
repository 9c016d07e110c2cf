//! Capability contracts for memory buffers.
//!
//! Any storage able to present itself as a read-only contiguous view of
//! elements of a fixed-width type satisfies [`Buffer`]; in-place mutation,
//! construction from a sequence, and in-place growth are separate,
//! composable capabilities. `Vec` satisfies all of them, and is the backing
//! storage used by the column kinds of this crate.

use vstd::prelude::*;

verus! {

/// A fixed-width element type that buffers can hold. Provides the filler
/// value written in place of absent elements of nullable columns.
pub trait Primitive: Copy + Sized {
    /// The filler value, at the specification level.
    spec fn spec_fill() -> Self;

    /// The filler value written in place of absent elements.
    fn fill_value() -> (r: Self)
        ensures
            r == Self::spec_fill(),
    ;
}

impl Primitive for u8 {
    open spec fn spec_fill() -> Self {
        0u8
    }

    fn fill_value() -> (r: Self) {
        0
    }
}

impl Primitive for u16 {
    open spec fn spec_fill() -> Self {
        0u16
    }

    fn fill_value() -> (r: Self) {
        0
    }
}

impl Primitive for u32 {
    open spec fn spec_fill() -> Self {
        0u32
    }

    fn fill_value() -> (r: Self) {
        0
    }
}

impl Primitive for u64 {
    open spec fn spec_fill() -> Self {
        0u64
    }

    fn fill_value() -> (r: Self) {
        0
    }
}

impl Primitive for u128 {
    open spec fn spec_fill() -> Self {
        0u128
    }

    fn fill_value() -> (r: Self) {
        0
    }
}

impl Primitive for i8 {
    open spec fn spec_fill() -> Self {
        0i8
    }

    fn fill_value() -> (r: Self) {
        0
    }
}

impl Primitive for i16 {
    open spec fn spec_fill() -> Self {
        0i16
    }

    fn fill_value() -> (r: Self) {
        0
    }
}

impl Primitive for i32 {
    open spec fn spec_fill() -> Self {
        0i32
    }

    fn fill_value() -> (r: Self) {
        0
    }
}

impl Primitive for i64 {
    open spec fn spec_fill() -> Self {
        0i64
    }

    fn fill_value() -> (r: Self) {
        0
    }
}

impl Primitive for bool {
    open spec fn spec_fill() -> Self {
        false
    }

    fn fill_value() -> (r: Self) {
        false
    }
}

/// A value with a length.
pub trait Length {
    /// The length, at the specification level.
    spec fn spec_len(&self) -> nat;

    /// Returns the length.
    fn len(&self) -> (r: usize)
        ensures
            r as nat == self.spec_len(),
    ;
}

impl<T> Length for Vec<T> {
    open spec fn spec_len(&self) -> nat {
        self@.len()
    }

    fn len(&self) -> (r: usize) {
        let r = Vec::len(self);
        r
    }
}

/// A contiguous immutable memory buffer of fixed-width elements.
///
/// Read-only view.
pub trait Buffer<T: Primitive> {
    /// The elements held, in order.
    spec fn buffer_view(&self) -> Seq<T>;

    /// The number of elements held.
    fn buffer_len(&self) -> (r: usize)
        ensures
            r as nat == self.buffer_view().len(),
    ;

    /// Reads the element at `index`.
    fn buffer_get(&self, index: usize) -> (r: T)
        requires
            index < self.buffer_view().len(),
        ensures
            r == self.buffer_view()[index as int],
    ;
}

/// A contiguous mutable memory buffer of fixed-width elements.
///
/// In-place mutation.
pub trait BufferMut<T: Primitive>: Buffer<T> {
    /// Overwrites the element at `index`.
    fn buffer_set(&mut self, index: usize, value: T)
        requires
            index < old(self).buffer_view().len(),
        ensures
            final(self).buffer_view() == old(self).buffer_view().update(index as int, value),
    ;
}

/// An allocatable contiguous memory buffer of fixed-width elements.
///
/// Allocation.
pub trait BufferAlloc<T: Primitive>: Buffer<T> + Sized {
    /// Allocates a buffer holding exactly `values`.
    fn buffer_alloc(values: Vec<T>) -> (r: Self)
        ensures
            r.buffer_view() == values@,
    ;
}

/// An extendable contiguous memory buffer of fixed-width elements.
///
/// Growing.
pub trait BufferExtend<T: Primitive>: Buffer<T> {
    /// Appends `value` at the end of the buffer.
    fn buffer_push(&mut self, value: T)
        ensures
            final(self).buffer_view() == old(self).buffer_view().push(value),
    ;
}

impl<T: Primitive> Buffer<T> for Vec<T> {
    open spec fn buffer_view(&self) -> Seq<T> {
        self@
    }

    fn buffer_len(&self) -> (r: usize) {
        let r = Vec::len(self);
        r
    }

    fn buffer_get(&self, index: usize) -> (r: T) {
        self[index]
    }
}

impl<T: Primitive> BufferMut<T> for Vec<T> {
    fn buffer_set(&mut self, index: usize, value: T) {
        self.set(index, value);
    }
}

impl<T: Primitive> BufferAlloc<T> for Vec<T> {
    fn buffer_alloc(values: Vec<T>) -> (r: Self) {
        values
    }
}

impl<T: Primitive> BufferExtend<T> for Vec<T> {
    fn buffer_push(&mut self, value: T) {
        self.push(value);
    }
}

} // verus!
