//! A columnar, in-memory array encoding library.
//!
//! The crate builds typed column storage out of a small set of primitives:
//! bit-packed boolean storage ([`bitmap::Bitmap`]), buffer capability
//! contracts ([`buffer`]), null tracking ([`validity::Validity`]), and the
//! monotonic offset encoding for variable-length rows
//! ([`variable_size_list`]). Concrete column kinds compose these primitives
//! through the [`array::Array`] construction protocol.

pub mod array;
pub mod bitmap;
pub mod buffer;
pub mod fixed_size_primitive;
pub mod struct_array;
pub mod validity;
pub mod variable_size_list;

pub use array::extend_rows;
pub use array::from_rows;
pub use array::Array;
pub use bitmap::Bitmap;
pub use bitmap::BitmapRef;
pub use bitmap::BitmapRefMut;
pub use buffer::Buffer;
pub use buffer::BufferAlloc;
pub use buffer::BufferExtend;
pub use buffer::BufferMut;
pub use buffer::Length;
pub use buffer::Primitive;
pub use fixed_size_primitive::FixedSizePrimitiveArray;
pub use fixed_size_primitive::NullArray;
pub use fixed_size_primitive::NullableFixedSizePrimitiveArray;
pub use fixed_size_primitive::NullableNullArray;
pub use struct_array::ArrayType;
pub use struct_array::NullableStructArray;
pub use struct_array::StructArray;
pub use struct_array::StructArrayType;
pub use validity::Validity;
pub use variable_size_list::NullableVariableSizeListArray;
pub use variable_size_list::VariableSizeListArray;
