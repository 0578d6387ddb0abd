//! Immutable arrays of structs: one child array for each field.

use crate::array::{make_array, ArrayRef};
use crate::array_data::{clone_array_data, ArrayData, ArrayDataView};
use crate::datatypes::DataType;
use vstd::prelude::*;

verus! {

/// An array of structs. Slot `i` is made of slot `i` of each child.
#[derive(Debug, PartialEq, Eq)]
pub struct StructArray {
    data: ArrayData,
}

impl View for StructArray {
    type V = ArrayDataView;

    closed spec fn view(&self) -> ArrayDataView {
        self.data@
    }
}

impl StructArray {
    /// Whether `d` is laid out as a struct array: the declared type is a
    /// struct, and a bitmap, if any, has a bit for every slot.
    pub open spec fn layout(d: ArrayDataView) -> bool {
        &&& d.data_type is Struct
        &&& d.offset + d.len <= usize::MAX
        &&& d.bitmap_covers()
    }

    /// The array data is laid out as an array of this type.
    pub open spec fn wf(&self) -> bool {
        Self::layout(self@)
    }

    /// The array over `data`.
    pub fn from_data(data: ArrayData) -> (r: Self)
        requires
            Self::layout(data@),
        ensures
            r@ == data@,
            r.wf(),
    {
        StructArray { data }
    }

    /// The array data.
    pub fn data(&self) -> (r: &ArrayData)
        ensures
            r@ == self@,
    {
        &self.data
    }

    /// The array data, the array given up.
    pub fn into_data(self) -> (r: ArrayData)
        ensures
            r@ == self@,
    {
        self.data
    }

    /// The array as a handle to an array of any type.
    pub fn into_ref(self) -> (r: ArrayRef)
        ensures
            r@ == self@,
    {
        make_array(self.data)
    }

    /// The declared type.
    pub fn data_type(&self) -> (r: &DataType)
        ensures
            r@ == self@.data_type,
    {
        self.data.data_type()
    }

    /// The number of slots.
    pub fn len(&self) -> (r: usize)
        ensures
            r == self@.len,
    {
        self.data.len()
    }

    /// The number of null slots.
    pub fn null_count(&self) -> (r: usize)
        ensures
            r == self@.null_count,
    {
        self.data.null_count()
    }

    /// The number of child arrays.
    pub fn num_columns(&self) -> (r: usize)
        ensures
            r == self@.child_data.len(),
    {
        self.data.child_data().len()
    }

    /// The child array of field `i`.
    pub fn column(&self, i: usize) -> (r: ArrayRef)
        requires
            i < self@.child_data.len(),
        ensures
            r@ == self@.child_data[i as int],
    {
        make_array(clone_array_data(&self.data.child_data()[i]))
    }

    /// Whether slot `i` is null.
    pub fn is_null(&self, i: usize) -> (r: bool)
        requires
            self.wf(),
            i < self@.len,
        ensures
            r == !self@.is_valid(i as int),
    {
        self.data.is_null(i)
    }

    /// Whether slot `i` holds a struct.
    pub fn is_valid(&self, i: usize) -> (r: bool)
        requires
            self.wf(),
            i < self@.len,
        ensures
            r == self@.is_valid(i as int),
    {
        self.data.is_valid(i)
    }
}

} // verus!
