//! Incremental builders for columnar arrays.
//!
//! A builder accepts scalar or nested appends and, on `finish`, freezes what
//! it has gathered into the contiguous buffers of an immutable array: a values
//! buffer, an optional offsets buffer, a bit-packed validity bitmap and child
//! arrays. The builder is then empty again and ready for a new round.
//!
//! The leaves are the two buffer builders of `buffer_builder`; every other
//! builder is made of them. What a builder holds is told by spec functions on
//! it; `built` tells the array that `finish` gives.

pub mod array;
pub mod array_builder;
pub mod array_data;
pub mod binary_array;
pub mod binary_builder;
pub mod bit_util;
pub mod boolean_builder;
pub mod buffer;
pub mod buffer_builder;
pub mod byte_map;
pub mod byte_order;
pub mod datatypes;
pub mod dictionary_array;
pub mod dictionary_builder;
pub mod error;
pub mod fixed_binary_builder;
pub mod list_array;
pub mod list_builder;
pub mod native;
pub mod primitive_builder;
pub mod string_builder;
pub mod string_util;
pub mod struct_array;
pub mod struct_builder;
pub mod types;
pub mod union_array;
pub mod union_builder;
