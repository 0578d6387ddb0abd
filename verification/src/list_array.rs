//! Immutable arrays of lists: variable-length lists delimited by an offsets
//! buffer, and lists of one fixed length.

use crate::array::{make_array, ArrayRef};
use crate::array_data::{clone_array_data, ArrayData, ArrayDataView};
use crate::datatypes::{clone_data_type, DataType, DataTypeView, FieldView};
use crate::native::{from_bytes, slot_bytes, ArrowNativeType, OffsetSizeTrait};
use std::marker::PhantomData;
use vstd::prelude::*;

verus! {

/// The declared type of a list whose items are of type `item`: the item
/// field is named "item" and is nullable.
pub open spec fn list_type(large: bool, item: DataTypeView) -> DataTypeView {
    let field = FieldView { name: "item"@, data_type: item, nullable: true };
    if large {
        DataTypeView::LargeList(Box::new(field))
    } else {
        DataTypeView::List(Box::new(field))
    }
}

/// The declared type of a list of `stride` items of type `item` each.
pub open spec fn fixed_size_list_type(item: DataTypeView, stride: i32) -> DataTypeView {
    DataTypeView::FixedSizeList(
        Box::new(FieldView { name: "item"@, data_type: item, nullable: true }),
        stride,
    )
}

/// Offset `i` of an offsets buffer.
pub open spec fn offset_at<O: OffsetSizeTrait>(offsets: Seq<u8>, i: int) -> O {
    from_bytes::<O>(slot_bytes(offsets, O::byte_width(), i))
}

/// An array of variable-length lists. Slot `i` spans the child's slots from
/// offset `i` up to offset `i + 1`.
#[derive(Debug, PartialEq, Eq)]
pub struct GenericListArray<OffsetSize: OffsetSizeTrait> {
    data: ArrayData,
    _marker: PhantomData<OffsetSize>,
}

pub type ListArray = GenericListArray<i32>;

pub type LargeListArray = GenericListArray<i64>;

impl<OffsetSize: OffsetSizeTrait> View for GenericListArray<OffsetSize> {
    type V = ArrayDataView;

    closed spec fn view(&self) -> ArrayDataView {
        self.data@
    }
}

impl<OffsetSize: OffsetSizeTrait> GenericListArray<OffsetSize> {
    /// Whether `d` is laid out as a list array: one buffer that holds an
    /// offset more than there are slots, one child, and a bitmap, if any,
    /// with a bit for every slot.
    pub open spec fn layout(d: ArrayDataView) -> bool {
        &&& d.buffers.len() == 1
        &&& d.child_data.len() == 1
        &&& (d.offset + d.len + 1) * OffsetSize::byte_width() <= d.buffers[0].len()
        &&& d.offset + d.len < usize::MAX
        &&& d.bitmap_covers()
    }

    /// The array data is laid out as an array of this type.
    pub open spec fn wf(&self) -> bool {
        Self::layout(self@)
    }

    /// Offset `i`: where slot `i` starts in the child, and slot `i - 1`
    /// ends.
    pub open spec fn spec_offset(&self, i: int) -> OffsetSize {
        offset_at::<OffsetSize>(self@.buffers[0], self@.offset + i)
    }

    /// The offsets of all slots, and the end of the last.
    pub open spec fn spec_offsets(&self) -> Seq<OffsetSize> {
        Seq::new(self@.len + 1, |i: int| self.spec_offset(i))
    }

    /// The array over `data`.
    pub fn from_data(data: ArrayData) -> (r: Self)
        requires
            Self::layout(data@),
        ensures
            r@ == data@,
            r.wf(),
    {
        GenericListArray { data, _marker: PhantomData }
    }

    /// The array data.
    pub fn data(&self) -> (r: &ArrayData)
        ensures
            r@ == self@,
    {
        &self.data
    }

    /// The array data, the array given up.
    pub fn into_data(self) -> (r: ArrayData)
        ensures
            r@ == self@,
    {
        self.data
    }

    /// The array as a handle to an array of any type.
    pub fn into_ref(self) -> (r: ArrayRef)
        ensures
            r@ == self@,
    {
        make_array(self.data)
    }

    /// The child array: the items of all lists, one after the other.
    pub fn values(&self) -> (r: ArrayRef)
        requires
            self.wf(),
        ensures
            r@ == self@.child_data[0],
    {
        make_array(clone_array_data(&self.data.child_data()[0]))
    }

    /// The declared type of the items.
    pub fn value_type(&self) -> (r: DataType)
        requires
            self.wf(),
        ensures
            r@ == self@.child_data[0].data_type,
    {
        clone_data_type(self.data.child_data()[0].data_type())
    }

    /// The number of slots.
    pub fn len(&self) -> (r: usize)
        ensures
            r == self@.len,
    {
        self.data.len()
    }

    /// Whether there is no slot.
    pub fn is_empty(&self) -> (r: bool)
        ensures
            r == (self@.len == 0),
    {
        self.data.is_empty()
    }

    /// The number of null slots.
    pub fn null_count(&self) -> (r: usize)
        ensures
            r == self@.null_count,
    {
        self.data.null_count()
    }

    /// Whether slot `i` is null.
    pub fn is_null(&self, i: usize) -> (r: bool)
        requires
            self.wf(),
            i < self@.len,
        ensures
            r == !self@.is_valid(i as int),
    {
        self.data.is_null(i)
    }

    /// Whether slot `i` holds a list.
    pub fn is_valid(&self, i: usize) -> (r: bool)
        requires
            self.wf(),
            i < self@.len,
        ensures
            r == self@.is_valid(i as int),
    {
        self.data.is_valid(i)
    }

    /// Offset `i`, for `i` up to the number of slots.
    pub fn value_offset(&self, i: usize) -> (r: OffsetSize)
        requires
            self.wf(),
            i <= self@.len,
        ensures
            r == self.spec_offset(i as int),
    {
        let at: usize = self.data.offset() + i;
        proof {
            let w = OffsetSize::byte_width();
            assert((at + 1) * w <= (self@.offset + self@.len + 1) * w) by (nonlinear_arith)
                requires
                    at + 1 <= self@.offset + self@.len + 1,
                    w >= 0,
            ;
        }
        self.data.buffers()[0].value::<OffsetSize>(at)
    }

    /// The offsets of all slots, and the end of the last.
    pub fn value_offsets(&self) -> (r: Vec<OffsetSize>)
        requires
            self.wf(),
        ensures
            r@ == self.spec_offsets(),
    {
        let n: usize = self.data.len() + 1;
        let mut out: Vec<OffsetSize> = Vec::new();
        let mut i: usize = 0;
        while i < n
            invariant
                i <= n,
                n == self@.len + 1,
                self.wf(),
                out@ == self.spec_offsets().take(i as int),
            decreases n - i,
        {
            out.push(self.value_offset(i));
            proof {
                assert(out@ =~= self.spec_offsets().take(i + 1));
            }
            i = i + 1;
        }
        proof {
            assert(self.spec_offsets().take(n as int) =~= self.spec_offsets());
        }
        out
    }

    /// The number of items in slot `i`.
    pub fn value_length(&self, i: usize) -> (r: OffsetSize)
        requires
            self.wf(),
            i < self@.len,
            0 <= self.spec_offset(i as int).as_int() <= self.spec_offset(i + 1).as_int(),
        ensures
            r.as_int() == self.spec_offset(i + 1).as_int() - self.spec_offset(i as int).as_int(),
    {
        let start = self.value_offset(i);
        let end = self.value_offset(i + 1);
        OffsetSize::span(start, end)
    }
}

/// An array of lists of one fixed length: slot `i` spans the child's slots
/// from `i * value_length()` on.
#[derive(Debug, PartialEq, Eq)]
pub struct FixedSizeListArray {
    data: ArrayData,
}

impl View for FixedSizeListArray {
    type V = ArrayDataView;

    closed spec fn view(&self) -> ArrayDataView {
        self.data@
    }
}

impl FixedSizeListArray {
    /// The length of each list, as the declared type gives it.
    pub open spec fn spec_value_length(d: ArrayDataView) -> i32 {
        match d.data_type {
            DataTypeView::FixedSizeList(_, stride) => stride,
            _ => 0i32,
        }
    }

    /// Whether `d` is laid out as a fixed-size list array: the declared type
    /// is one, there is one child, and a bitmap, if any, has a bit for every
    /// slot.
    pub open spec fn layout(d: ArrayDataView) -> bool {
        &&& d.data_type is FixedSizeList
        &&& d.child_data.len() == 1
        &&& d.offset + d.len <= usize::MAX
        &&& d.bitmap_covers()
    }

    /// The array data is laid out as an array of this type.
    pub open spec fn wf(&self) -> bool {
        Self::layout(self@)
    }

    /// The array over `data`.
    pub fn from_data(data: ArrayData) -> (r: Self)
        requires
            Self::layout(data@),
        ensures
            r@ == data@,
            r.wf(),
    {
        FixedSizeListArray { data }
    }

    /// The array data.
    pub fn data(&self) -> (r: &ArrayData)
        ensures
            r@ == self@,
    {
        &self.data
    }

    /// The array data, the array given up.
    pub fn into_data(self) -> (r: ArrayData)
        ensures
            r@ == self@,
    {
        self.data
    }

    /// The array as a handle to an array of any type.
    pub fn into_ref(self) -> (r: ArrayRef)
        ensures
            r@ == self@,
    {
        make_array(self.data)
    }

    /// The child array: the items of all lists, one after the other.
    pub fn values(&self) -> (r: ArrayRef)
        requires
            self.wf(),
        ensures
            r@ == self@.child_data[0],
    {
        make_array(clone_array_data(&self.data.child_data()[0]))
    }

    /// The declared type of the items.
    pub fn value_type(&self) -> (r: DataType)
        requires
            self.wf(),
        ensures
            r@ == self@.child_data[0].data_type,
    {
        clone_data_type(self.data.child_data()[0].data_type())
    }

    /// The number of slots.
    pub fn len(&self) -> (r: usize)
        ensures
            r == self@.len,
    {
        self.data.len()
    }

    /// The number of null slots.
    pub fn null_count(&self) -> (r: usize)
        ensures
            r == self@.null_count,
    {
        self.data.null_count()
    }

    /// Whether slot `i` is null.
    pub fn is_null(&self, i: usize) -> (r: bool)
        requires
            self.wf(),
            i < self@.len,
        ensures
            r == !self@.is_valid(i as int),
    {
        self.data.is_null(i)
    }

    /// Whether slot `i` holds a list.
    pub fn is_valid(&self, i: usize) -> (r: bool)
        requires
            self.wf(),
            i < self@.len,
        ensures
            r == self@.is_valid(i as int),
    {
        self.data.is_valid(i)
    }

    /// The length of each list.
    pub fn value_length(&self) -> (r: i32)
        requires
            self.wf(),
        ensures
            r == Self::spec_value_length(self@),
    {
        match self.data.data_type() {
            DataType::FixedSizeList(_, stride) => *stride,
            _ => 0,
        }
    }

    /// Where slot `i` starts in the child.
    pub fn value_offset(&self, i: usize) -> (r: i32)
        requires
            self.wf(),
            i < self@.len,
            0 <= Self::spec_value_length(self@),
            (self@.offset + i) * Self::spec_value_length(self@) <= i32::MAX,
        ensures
            r == (self@.offset + i) * Self::spec_value_length(self@),
    {
        let stride: i32 = self.value_length();
        let at: usize = self.data.offset() + i;
        proof {
            assert(0 <= at * stride) by (nonlinear_arith)
                requires
                    0 <= at,
                    0 <= stride,
            ;
            if stride > 0 {
                assert(at <= at * stride) by (nonlinear_arith)
                    requires
                        0 <= at,
                        1 <= stride,
                ;
            } else {
                assert(at * stride == 0) by (nonlinear_arith)
                    requires
                        stride == 0,
                ;
            }
        }
        if stride == 0 {
            0
        } else {
            (at as i32) * stride
        }
    }
}

} // verus!
