//! Immutable arrays of byte strings and of text: variable-length ones
//! delimited by an offsets buffer, and ones of a fixed width.

use crate::array::{make_array, ArrayRef};
use crate::array_data::{
    buffers_view, clone_array_data, lemma_children_view_empty, spec_count_nulls, ArrayData,
    ArrayDataView,
};
use crate::bit_util::ceil;
use crate::buffer::Buffer;
use crate::datatypes::{data_type_eq, DataType, DataTypeView};
use crate::list_array::{offset_at, FixedSizeListArray, GenericListArray};
use crate::native::{ArrowNativeType, OffsetSizeTrait};
use crate::string_util::{string_from_utf8, string_of_bytes};
use std::marker::PhantomData;
use vstd::prelude::*;
use vstd::utf8::{decode_utf8, valid_utf8};

verus! {

/// Where slot `i` of a variable-length array starts in its values buffer.
pub open spec fn var_start<O: OffsetSizeTrait>(d: ArrayDataView, i: int) -> int {
    offset_at::<O>(d.buffers[0], d.offset + i).as_int()
}

/// The bytes of slot `i` of a variable-length array.
pub open spec fn var_value<O: OffsetSizeTrait>(d: ArrayDataView, i: int) -> Seq<u8> {
    d.buffers[1].subrange(var_start::<O>(d, i), var_start::<O>(d, i + 1))
}

/// Whether `d` is laid out as a variable-length array: an offsets buffer with
/// an offset more than there are slots, a values buffer, offsets that never
/// go back and stay within the values, and a bitmap, if any, with a bit for
/// every slot.
pub open spec fn var_layout<O: OffsetSizeTrait>(d: ArrayDataView) -> bool {
    &&& d.buffers.len() == 2
    &&& (d.offset + d.len + 1) * O::byte_width() <= d.buffers[0].len()
    &&& d.offset + d.len < usize::MAX
    &&& d.bitmap_covers()
    &&& forall|i: int, j: int|
        0 <= i <= j <= d.len ==> 0 <= #[trigger] var_start::<O>(d, i) <= #[trigger] var_start::<O>(
            d,
            j,
        ) <= d.buffers[1].len()
}

/// The array data of a variable-length array with the parts of the list
/// array `d` whose items are bytes: the list's offsets, the child's values,
/// the list's bitmap.
pub open spec fn var_from_list(data_type: DataTypeView, d: ArrayDataView) -> ArrayDataView {
    ArrayDataView {
        data_type,
        len: d.len,
        null_count: spec_count_nulls(d.null_bitmap, 0, d.len),
        offset: 0,
        buffers: seq![d.buffers[0], d.child_data[0].buffers[0]],
        child_data: Seq::empty(),
        null_bitmap: d.null_bitmap,
    }
}

/// The array data of a fixed-width array with the parts of the fixed-size
/// list array `d` whose items are bytes: the child's values, the list's
/// bitmap.
pub open spec fn fixed_from_list(data_type: DataTypeView, d: ArrayDataView) -> ArrayDataView {
    ArrayDataView {
        data_type,
        len: d.len,
        null_count: spec_count_nulls(d.null_bitmap, 0, d.len),
        offset: 0,
        buffers: seq![d.child_data[0].buffers[0]],
        child_data: Seq::empty(),
        null_bitmap: d.null_bitmap,
    }
}

/// Whether a list array `d` has the parts for an array of byte strings: one
/// buffer, one child with one buffer and no null, and a bitmap, if any, with
/// a bit for every slot from the first.
pub open spec fn list_of_bytes(d: ArrayDataView) -> bool {
    &&& d.child_data.len() == 1
    &&& d.child_data[0].buffers.len() == 1
    &&& d.child_data[0].null_count == 0
    &&& match d.null_bitmap {
        Some(b) => d.len <= 8 * b.len(),
        None => true,
    }
}

/// Offset `i` of a variable-length array.
fn var_offset<O: OffsetSizeTrait>(data: &ArrayData, i: usize) -> (r: O)
    requires
        data@.buffers.len() >= 1,
        (data@.offset + data@.len + 1) * O::byte_width() <= data@.buffers[0].len(),
        data@.offset + data@.len < usize::MAX,
        i <= data@.len,
    ensures
        r == offset_at::<O>(data@.buffers[0], data@.offset + i),
        r.as_int() == var_start::<O>(data@, i as int),
{
    let at: usize = data.offset() + i;
    proof {
        let w = O::byte_width();
        assert((at + 1) * w <= (data@.offset + data@.len + 1) * w) by (nonlinear_arith)
            requires
                at + 1 <= data@.offset + data@.len + 1,
                w >= 0,
        ;
    }
    data.buffers()[0].value::<O>(at)
}

/// Whether slot `i` starts at or after zero, ends at or after its start, and
/// ends within the values.
fn var_slot_ok<O: OffsetSizeTrait>(data: &ArrayData, i: usize) -> (r: bool)
    requires
        data@.buffers.len() == 2,
        (data@.offset + data@.len + 1) * O::byte_width() <= data@.buffers[0].len(),
        data@.offset + data@.len < usize::MAX,
        i < data@.len,
    ensures
        r == (0 <= var_start::<O>(data@, i as int) <= var_start::<O>(data@, i + 1)
            <= data@.buffers[1].len()),
{
    let start = var_offset::<O>(data, i).to_usize();
    let end = var_offset::<O>(data, i + 1).to_usize();
    let total: usize = data.buffers()[1].len();
    match start {
        Some(a) => match end {
            Some(b) => a <= b && b <= total,
            None => false,
        },
        None => false,
    }
}

/// Whether `data` is laid out as a variable-length array.
fn var_check<O: OffsetSizeTrait>(data: &ArrayData) -> (r: bool)
    ensures
        r == var_layout::<O>(data@),
{
    if data.buffers().len() != 2 || data.offset() >= usize::MAX - data.len() {
        return false;
    }
    let slots: usize = data.offset() + data.len();
    let covered = match data.null_buffer() {
        Some(b) => ceil(slots, 8) <= b.len(),
        None => true,
    };
    let w: usize = O::size();
    let bytes: usize = data.buffers()[0].len();
    proof {
        assert(slots + 1 <= bytes / w <==> (slots + 1) * w <= bytes) by (nonlinear_arith)
            requires
                w > 0,
                slots >= 0,
                bytes >= 0,
        ;
    }
    if !covered || slots + 1 > bytes / w {
        return false;
    }
    let n: usize = data.len();
    let first = var_offset::<O>(data, 0).to_usize();
    let total: usize = data.buffers()[1].len();
    let first_ok = match first {
        Some(a) => a <= total,
        None => false,
    };
    if !first_ok {
        proof {
            let x = var_start::<O>(data@, 0);
        }
        return false;
    }
    let mut i: usize = 0;
    while i < n
        invariant
            i <= n,
            n == data@.len,
            data@.buffers.len() == 2,
            (data@.offset + data@.len + 1) * O::byte_width() <= data@.buffers[0].len(),
            data@.offset + data@.len < usize::MAX,
            forall|a: int, b: int|
                0 <= a <= b <= i ==> 0 <= #[trigger] var_start::<O>(data@, a) <= #[trigger] var_start::<
                    O,
                >(data@, b) <= data@.buffers[1].len(),
        decreases n - i,
    {
        if !var_slot_ok::<O>(data, i) {
            proof {
                let x = var_start::<O>(data@, i as int);
                let y = var_start::<O>(data@, i + 1);
            }
            return false;
        }
        proof {
            let x = var_start::<O>(data@, i as int);
            let y = var_start::<O>(data@, i + 1);
            assert forall|a: int, b: int| 0 <= a <= b <= i + 1 implies 0 <= #[trigger] var_start::<
                O,
            >(data@, a) <= #[trigger] var_start::<O>(data@, b) <= data@.buffers[1].len() by {
                if b == i + 1 && a <= i {
                    assert(var_start::<O>(data@, a) <= x);
                }
            }
        }
        i = i + 1;
    }
    true
}

/// The bytes of slot `i` of a variable-length array.
fn var_bytes<O: OffsetSizeTrait>(data: &ArrayData, i: usize) -> (r: Vec<u8>)
    requires
        var_layout::<O>(data@),
        i < data@.len,
    ensures
        r@ == var_value::<O>(data@, i as int),
{
    let ghost a = var_start::<O>(data@, i as int);
    let ghost b = var_start::<O>(data@, i + 1);
    let total: usize = data.buffers()[1].len();
    proof {
        assert(0 <= a <= var_start::<O>(data@, i + 1) <= data@.buffers[1].len());
        assert(data@.buffers[1].len() == total);
    }
    let start: usize = match var_offset::<O>(data, i).to_usize() {
        Some(a) => a,
        None => 0,
    };
    let end: usize = match var_offset::<O>(data, i + 1).to_usize() {
        Some(b) => b,
        None => 0,
    };
    let values: &Buffer = &data.buffers()[1];
    let bytes: &[u8] = values.as_slice();
    proof {
        assert(bytes@ == data@.buffers[1]);
        assert(0 <= a <= var_start::<O>(data@, i + 1) <= data@.buffers[1].len());
        assert(start == a && end == b);
    }
    let mut out: Vec<u8> = Vec::new();
    let mut k: usize = start;
    while k < end
        invariant
            start <= k <= end <= bytes@.len(),
            out@ == bytes@.subrange(start as int, k as int),
        decreases end - k,
    {
        out.push(bytes[k]);
        k = k + 1;
        proof {
            assert(out@ =~= bytes@.subrange(start as int, k as int));
        }
    }
    out
}

/// The array data with the parts of a list array whose items are bytes.
fn var_data_from_list(data_type: DataType, list: &ArrayData) -> (r: ArrayData)
    requires
        list@.buffers.len() == 1,
        list_of_bytes(list@),
    ensures
        r@ == var_from_list(data_type@, list@),
{
    let offsets = list.buffers()[0].clone();
    let values = list.child_data()[0].buffers()[0].clone();
    let bitmap: Option<Buffer> = match list.null_buffer() {
        Some(b) => Some(b.clone()),
        None => None,
    };
    let mut buffers: Vec<Buffer> = Vec::new();
    buffers.push(offsets);
    buffers.push(values);
    proof {
        assert(buffers_view(buffers@) =~= seq![list@.buffers[0], list@.child_data[0].buffers[0]]);
        lemma_children_view_empty();
    }
    ArrayData::new(data_type, list.len(), None, bitmap, 0, buffers, Vec::new())
}

/// The array data with the parts of a fixed-size list array whose items are
/// bytes.
fn fixed_data_from_list(data_type: DataType, list: &ArrayData) -> (r: ArrayData)
    requires
        list_of_bytes(list@),
    ensures
        r@ == fixed_from_list(data_type@, list@),
{
    let values = list.child_data()[0].buffers()[0].clone();
    let bitmap: Option<Buffer> = match list.null_buffer() {
        Some(b) => Some(b.clone()),
        None => None,
    };
    let mut buffers: Vec<Buffer> = Vec::new();
    buffers.push(values);
    proof {
        assert(buffers_view(buffers@) =~= seq![list@.child_data[0].buffers[0]]);
        lemma_children_view_empty();
    }
    ArrayData::new(data_type, list.len(), None, bitmap, 0, buffers, Vec::new())
}

/// The declared type of byte strings with offsets of 32 or 64 bits.
pub open spec fn binary_type(large: bool) -> DataTypeView {
    if large {
        DataTypeView::LargeBinary
    } else {
        DataTypeView::Binary
    }
}

/// The declared type of text with offsets of 32 or 64 bits.
pub open spec fn string_type(large: bool) -> DataTypeView {
    if large {
        DataTypeView::LargeUtf8
    } else {
        DataTypeView::Utf8
    }
}

/// An array of byte strings of any length.
#[derive(Debug, PartialEq, Eq)]
pub struct GenericBinaryArray<OffsetSize: OffsetSizeTrait> {
    data: ArrayData,
    _marker: PhantomData<OffsetSize>,
}

pub type BinaryArray = GenericBinaryArray<i32>;

pub type LargeBinaryArray = GenericBinaryArray<i64>;

impl<OffsetSize: OffsetSizeTrait> View for GenericBinaryArray<OffsetSize> {
    type V = ArrayDataView;

    closed spec fn view(&self) -> ArrayDataView {
        self.data@
    }
}

impl<OffsetSize: OffsetSizeTrait> GenericBinaryArray<OffsetSize> {
    /// The array data is laid out as an array of this type.
    pub open spec fn wf(&self) -> bool {
        var_layout::<OffsetSize>(self@)
    }

    /// The bytes of slot `i`.
    pub open spec fn spec_value(&self, i: int) -> Seq<u8> {
        var_value::<OffsetSize>(self@, i)
    }

    /// Where slot `i` starts in the values, and slot `i - 1` ends.
    pub open spec fn spec_offset(&self, i: int) -> int {
        var_start::<OffsetSize>(self@, i)
    }

    /// The array over `data`.
    pub fn from_data(data: ArrayData) -> (r: Self)
        requires
            var_layout::<OffsetSize>(data@),
        ensures
            r@ == data@,
            r.wf(),
    {
        GenericBinaryArray { data, _marker: PhantomData }
    }

    /// The array with the offsets and the bitmap of `v` and the values of
    /// its child.
    pub fn from_list(v: GenericListArray<OffsetSize>) -> (r: Self)
        requires
            v@.buffers.len() == 1,
            list_of_bytes(v@),
            var_layout::<OffsetSize>(
                var_from_list(binary_type(OffsetSize::spec_is_large()), v@),
            ),
        ensures
            r@ == var_from_list(binary_type(OffsetSize::spec_is_large()), v@),
            r.wf(),
    {
        let data_type = if OffsetSize::is_large() {
            DataType::LargeBinary
        } else {
            DataType::Binary
        };
        let data = var_data_from_list(data_type, v.data());
        GenericBinaryArray { data, _marker: PhantomData }
    }

    /// The array data.
    pub fn data(&self) -> (r: &ArrayData)
        ensures
            r@ == self@,
    {
        &self.data
    }

    /// The array data, the array given up.
    pub fn into_data(self) -> (r: ArrayData)
        ensures
            r@ == self@,
    {
        self.data
    }

    /// The array as a handle to an array of any type.
    pub fn into_ref(self) -> (r: ArrayRef)
        ensures
            r@ == self@,
    {
        make_array(self.data)
    }

    /// The number of slots.
    pub fn len(&self) -> (r: usize)
        ensures
            r == self@.len,
    {
        self.data.len()
    }

    /// The number of null slots.
    pub fn null_count(&self) -> (r: usize)
        ensures
            r == self@.null_count,
    {
        self.data.null_count()
    }

    /// Whether slot `i` is null.
    pub fn is_null(&self, i: usize) -> (r: bool)
        requires
            self.wf(),
            i < self@.len,
        ensures
            r == !self@.is_valid(i as int),
    {
        self.data.is_null(i)
    }

    /// Whether slot `i` holds a value.
    pub fn is_valid(&self, i: usize) -> (r: bool)
        requires
            self.wf(),
            i < self@.len,
        ensures
            r == self@.is_valid(i as int),
    {
        self.data.is_valid(i)
    }

    /// The bytes of slot `i`.
    pub fn value(&self, i: usize) -> (r: Vec<u8>)
        requires
            self.wf(),
            i < self@.len,
        ensures
            r@ == self.spec_value(i as int),
    {
        var_bytes::<OffsetSize>(&self.data, i)
    }

    /// Offset `i`, for `i` up to the number of slots.
    pub fn value_offset(&self, i: usize) -> (r: OffsetSize)
        requires
            self.wf(),
            i <= self@.len,
        ensures
            r.as_int() == self.spec_offset(i as int),
    {
        var_offset::<OffsetSize>(&self.data, i)
    }

    /// The offsets of all slots, and the end of the last.
    pub fn value_offsets(&self) -> (r: Vec<OffsetSize>)
        requires
            self.wf(),
        ensures
            r@.len() == self@.len + 1,
            forall|i: int| 0 <= i <= self@.len ==> (#[trigger] r@[i]).as_int() == self.spec_offset(i),
    {
        let n: usize = self.data.len() + 1;
        let mut out: Vec<OffsetSize> = Vec::new();
        let mut i: usize = 0;
        while i < n
            invariant
                i <= n,
                n == self@.len + 1,
                self.wf(),
                out@.len() == i,
                forall|k: int| 0 <= k < i ==> (#[trigger] out@[k]).as_int() == self.spec_offset(k),
            decreases n - i,
        {
            out.push(self.value_offset(i));
            i = i + 1;
        }
        out
    }

    /// The number of bytes in slot `i`.
    pub fn value_length(&self, i: usize) -> (r: OffsetSize)
        requires
            self.wf(),
            i < self@.len,
        ensures
            r.as_int() == self.spec_value(i as int).len(),
    {
        let start = var_offset::<OffsetSize>(&self.data, i);
        let end = var_offset::<OffsetSize>(&self.data, i + 1);
        OffsetSize::span(start, end)
    }
}

/// An array of text of any length, held as UTF-8.
#[derive(Debug, PartialEq, Eq)]
pub struct GenericStringArray<OffsetSize: OffsetSizeTrait> {
    data: ArrayData,
    _marker: PhantomData<OffsetSize>,
}

pub type StringArray = GenericStringArray<i32>;

pub type LargeStringArray = GenericStringArray<i64>;

impl<OffsetSize: OffsetSizeTrait> View for GenericStringArray<OffsetSize> {
    type V = ArrayDataView;

    closed spec fn view(&self) -> ArrayDataView {
        self.data@
    }
}

impl<OffsetSize: OffsetSizeTrait> GenericStringArray<OffsetSize> {
    /// Whether `d` is laid out as an array of text: as a variable-length
    /// array whose every slot holds valid UTF-8.
    pub open spec fn layout(d: ArrayDataView) -> bool {
        &&& var_layout::<OffsetSize>(d)
        &&& forall|i: int| 0 <= i < d.len ==> valid_utf8(#[trigger] var_value::<OffsetSize>(d, i))
    }

    /// The array data is laid out as an array of this type.
    pub open spec fn wf(&self) -> bool {
        Self::layout(self@)
    }

    /// The bytes of slot `i`.
    pub open spec fn spec_value_bytes(&self, i: int) -> Seq<u8> {
        var_value::<OffsetSize>(self@, i)
    }

    /// The text of slot `i`.
    pub open spec fn spec_value(&self, i: int) -> Seq<char> {
        decode_utf8(var_value::<OffsetSize>(self@, i))
    }

    /// Where slot `i` starts in the values, and slot `i - 1` ends.
    pub open spec fn spec_offset(&self, i: int) -> int {
        var_start::<OffsetSize>(self@, i)
    }

    /// The array over `data`.
    pub fn from_data(data: ArrayData) -> (r: Self)
        requires
            Self::layout(data@),
        ensures
            r@ == data@,
            r.wf(),
    {
        GenericStringArray { data, _marker: PhantomData }
    }

    /// The array over `data`, if `data` is of this type and laid out as an
    /// array of it.
    pub fn try_new(data: ArrayData) -> (r: Option<Self>)
        ensures
            match r {
                Some(a) => a@ == data@ && a.wf() && data@.data_type == string_type(
                    OffsetSize::spec_is_large(),
                ),
                None => !(Self::layout(data@) && data@.data_type == string_type(
                    OffsetSize::spec_is_large(),
                )),
            },
    {
        let expected = if OffsetSize::is_large() {
            DataType::LargeUtf8
        } else {
            DataType::Utf8
        };
        if !data_type_eq(data.data_type(), &expected) || !var_check::<OffsetSize>(&data) {
            return None;
        }
        let n: usize = data.len();
        let mut i: usize = 0;
        while i < n
            invariant
                i <= n,
                n == data@.len,
                var_layout::<OffsetSize>(data@),
                forall|k: int|
                    0 <= k < i ==> valid_utf8(#[trigger] var_value::<OffsetSize>(data@, k)),
            decreases n - i,
        {
            if string_from_utf8(var_bytes::<OffsetSize>(&data, i)).is_none() {
                return None;
            }
            i = i + 1;
        }
        Some(GenericStringArray { data, _marker: PhantomData })
    }

    /// The array that `array` refers to, if it is of this type.
    pub fn from_array_ref(array: &ArrayRef) -> (r: Option<Self>)
        ensures
            match r {
                Some(a) => a@ == array@ && a.wf() && array@.data_type == string_type(
                    OffsetSize::spec_is_large(),
                ),
                None => !(Self::layout(array@) && array@.data_type == string_type(
                    OffsetSize::spec_is_large(),
                )),
            },
    {
        Self::try_new(clone_array_data(array.data()))
    }

    /// The array with the offsets and the bitmap of `v` and the values of
    /// its child.
    pub fn from_list(v: GenericListArray<OffsetSize>) -> (r: Self)
        requires
            v@.buffers.len() == 1,
            list_of_bytes(v@),
            Self::layout(var_from_list(string_type(OffsetSize::spec_is_large()), v@)),
        ensures
            r@ == var_from_list(string_type(OffsetSize::spec_is_large()), v@),
            r.wf(),
    {
        let data_type = if OffsetSize::is_large() {
            DataType::LargeUtf8
        } else {
            DataType::Utf8
        };
        let data = var_data_from_list(data_type, v.data());
        GenericStringArray { data, _marker: PhantomData }
    }

    /// The array data.
    pub fn data(&self) -> (r: &ArrayData)
        ensures
            r@ == self@,
    {
        &self.data
    }

    /// The array data, the array given up.
    pub fn into_data(self) -> (r: ArrayData)
        ensures
            r@ == self@,
    {
        self.data
    }

    /// The array as a handle to an array of any type.
    pub fn into_ref(self) -> (r: ArrayRef)
        ensures
            r@ == self@,
    {
        make_array(self.data)
    }

    /// The values buffer: the bytes of all slots, one after the other.
    pub fn value_data(&self) -> (r: Buffer)
        requires
            self.wf(),
        ensures
            r@ == self@.buffers[1],
    {
        self.data.buffers()[1].clone()
    }

    /// The number of slots.
    pub fn len(&self) -> (r: usize)
        ensures
            r == self@.len,
    {
        self.data.len()
    }

    /// The number of null slots.
    pub fn null_count(&self) -> (r: usize)
        ensures
            r == self@.null_count,
    {
        self.data.null_count()
    }

    /// Whether slot `i` is null.
    pub fn is_null(&self, i: usize) -> (r: bool)
        requires
            self.wf(),
            i < self@.len,
        ensures
            r == !self@.is_valid(i as int),
    {
        self.data.is_null(i)
    }

    /// Whether slot `i` holds a value.
    pub fn is_valid(&self, i: usize) -> (r: bool)
        requires
            self.wf(),
            i < self@.len,
        ensures
            r == self@.is_valid(i as int),
    {
        self.data.is_valid(i)
    }

    /// The bytes of slot `i`.
    pub fn value_bytes(&self, i: usize) -> (r: Vec<u8>)
        requires
            self.wf(),
            i < self@.len,
        ensures
            r@ == self.spec_value_bytes(i as int),
    {
        var_bytes::<OffsetSize>(&self.data, i)
    }

    /// The text of slot `i`.
    pub fn value(&self, i: usize) -> (r: String)
        requires
            self.wf(),
            i < self@.len,
        ensures
            r@ == self.spec_value(i as int),
    {
        string_of_bytes(var_bytes::<OffsetSize>(&self.data, i))
    }

    /// Offset `i`, for `i` up to the number of slots.
    pub fn value_offset(&self, i: usize) -> (r: OffsetSize)
        requires
            self.wf(),
            i <= self@.len,
        ensures
            r.as_int() == self.spec_offset(i as int),
    {
        var_offset::<OffsetSize>(&self.data, i)
    }

    /// The offsets of all slots, and the end of the last.
    pub fn value_offsets(&self) -> (r: Vec<OffsetSize>)
        requires
            self.wf(),
        ensures
            r@.len() == self@.len + 1,
            forall|i: int| 0 <= i <= self@.len ==> (#[trigger] r@[i]).as_int() == self.spec_offset(i),
    {
        let n: usize = self.data.len() + 1;
        let mut out: Vec<OffsetSize> = Vec::new();
        let mut i: usize = 0;
        while i < n
            invariant
                i <= n,
                n == self@.len + 1,
                self.wf(),
                out@.len() == i,
                forall|k: int| 0 <= k < i ==> (#[trigger] out@[k]).as_int() == self.spec_offset(k),
            decreases n - i,
        {
            out.push(self.value_offset(i));
            i = i + 1;
        }
        out
    }

    /// The number of bytes in slot `i`.
    pub fn value_length(&self, i: usize) -> (r: OffsetSize)
        requires
            self.wf(),
            i < self@.len,
        ensures
            r.as_int() == self.spec_value_bytes(i as int).len(),
    {
        let start = var_offset::<OffsetSize>(&self.data, i);
        let end = var_offset::<OffsetSize>(&self.data, i + 1);
        OffsetSize::span(start, end)
    }
}

/// Whether `d` is laid out as an array of slots of `width` bytes each: one
/// buffer that holds every slot, and a bitmap, if any, with a bit for every
/// slot.
pub open spec fn fixed_layout(d: ArrayDataView, width: int) -> bool {
    &&& d.buffers.len() == 1
    &&& d.len > 0 ==> 0 <= width && (d.offset + d.len) * width <= d.buffers[0].len()
    &&& d.offset + d.len <= usize::MAX
    &&& d.bitmap_covers()
}

/// The bytes of slot `i` of an array of slots of `width` bytes each.
pub open spec fn fixed_value(d: ArrayDataView, width: int, i: int) -> Seq<u8> {
    d.buffers[0].subrange((d.offset + i) * width, (d.offset + i + 1) * width)
}

/// The bytes of slot `i` of an array of slots of `width` bytes each.
fn fixed_bytes(data: &ArrayData, width: usize, i: usize) -> (r: Vec<u8>)
    requires
        fixed_layout(data@, width as int),
        i < data@.len,
    ensures
        r@ == fixed_value(data@, width as int, i as int),
{
    let at: usize = data.offset() + i;
    let total: usize = data.buffers()[0].len();
    proof {
        assert(total == data@.buffers[0].len());
        assert((at + 1) * width <= (data@.offset + data@.len) * width) by (nonlinear_arith)
            requires
                at + 1 <= data@.offset + data@.len,
                width >= 0,
        ;
        assert(at * width + width == (at + 1) * width) by (nonlinear_arith);
        assert(0 <= at * width) by (nonlinear_arith)
            requires
                0 <= at,
                0 <= width,
        ;
    }
    let start: usize = at * width;
    let end: usize = start + width;
    let bytes: &[u8] = data.buffers()[0].as_slice();
    let mut out: Vec<u8> = Vec::new();
    let mut k: usize = start;
    while k < end
        invariant
            start <= k <= end <= bytes@.len(),
            out@ == bytes@.subrange(start as int, k as int),
        decreases end - k,
    {
        out.push(bytes[k]);
        k = k + 1;
        proof {
            assert(out@ =~= bytes@.subrange(start as int, k as int));
        }
    }
    out
}

/// Whether `data` is laid out as an array of slots of `width` bytes each.
fn fixed_check(data: &ArrayData, width: i32) -> (r: bool)
    ensures
        r == fixed_layout(data@, width as int),
{
    if data.buffers().len() != 1 || data.offset() > usize::MAX - data.len() {
        return false;
    }
    let slots: usize = data.offset() + data.len();
    let covered = match data.null_buffer() {
        Some(b) => ceil(slots, 8) <= b.len(),
        None => true,
    };
    if !covered {
        return false;
    }
    if data.len() == 0 {
        return true;
    }
    if width < 0 {
        return false;
    }
    let bytes: usize = data.buffers()[0].len();
    if width == 0 {
        proof {
            assert(slots * width == 0) by (nonlinear_arith)
                requires
                    width == 0,
            ;
        }
        return true;
    }
    let w: usize = width as usize;
    proof {
        assert(slots <= bytes / w <==> slots * w <= bytes) by (nonlinear_arith)
            requires
                w > 0,
                slots >= 0,
                bytes >= 0,
        ;
    }
    slots <= bytes / w
}

/// An array of byte strings of one width.
#[derive(Debug, PartialEq, Eq)]
pub struct FixedSizeBinaryArray {
    data: ArrayData,
}

impl View for FixedSizeBinaryArray {
    type V = ArrayDataView;

    closed spec fn view(&self) -> ArrayDataView {
        self.data@
    }
}

impl FixedSizeBinaryArray {
    /// The width of each slot, as the declared type gives it.
    pub open spec fn spec_value_length(d: ArrayDataView) -> i32 {
        match d.data_type {
            DataTypeView::FixedSizeBinary(width) => width,
            _ => 0i32,
        }
    }

    /// Whether `d` is laid out as an array of slots of one width.
    pub open spec fn layout(d: ArrayDataView) -> bool {
        fixed_layout(d, Self::spec_value_length(d) as int)
    }

    /// The array data is laid out as an array of this type.
    pub open spec fn wf(&self) -> bool {
        Self::layout(self@)
    }

    /// The bytes of slot `i`.
    pub open spec fn spec_value(&self, i: int) -> Seq<u8> {
        fixed_value(self@, Self::spec_value_length(self@) as int, i)
    }

    /// The array over `data`.
    pub fn from_data(data: ArrayData) -> (r: Self)
        requires
            Self::layout(data@),
        ensures
            r@ == data@,
            r.wf(),
    {
        FixedSizeBinaryArray { data }
    }

    /// The array with the bitmap of `v` and the values of its child, each
    /// slot as wide as the lists of `v` are long.
    pub fn from_list(v: FixedSizeListArray) -> (r: Self)
        requires
            v.wf(),
            list_of_bytes(v@),
            Self::layout(
                fixed_from_list(
                    DataTypeView::FixedSizeBinary(FixedSizeListArray::spec_value_length(v@)),
                    v@,
                ),
            ),
        ensures
            r@ == fixed_from_list(
                DataTypeView::FixedSizeBinary(FixedSizeListArray::spec_value_length(v@)),
                v@,
            ),
            r.wf(),
    {
        let data = fixed_data_from_list(DataType::FixedSizeBinary(v.value_length()), v.data());
        FixedSizeBinaryArray { data }
    }

    /// The array data.
    pub fn data(&self) -> (r: &ArrayData)
        ensures
            r@ == self@,
    {
        &self.data
    }

    /// The array data, the array given up.
    pub fn into_data(self) -> (r: ArrayData)
        ensures
            r@ == self@,
    {
        self.data
    }

    /// The array as a handle to an array of any type.
    pub fn into_ref(self) -> (r: ArrayRef)
        ensures
            r@ == self@,
    {
        make_array(self.data)
    }

    /// The declared type.
    pub fn data_type(&self) -> (r: &DataType)
        ensures
            r@ == self@.data_type,
    {
        self.data.data_type()
    }

    /// The number of slots.
    pub fn len(&self) -> (r: usize)
        ensures
            r == self@.len,
    {
        self.data.len()
    }

    /// The number of null slots.
    pub fn null_count(&self) -> (r: usize)
        ensures
            r == self@.null_count,
    {
        self.data.null_count()
    }

    /// Whether slot `i` is null.
    pub fn is_null(&self, i: usize) -> (r: bool)
        requires
            self.wf(),
            i < self@.len,
        ensures
            r == !self@.is_valid(i as int),
    {
        self.data.is_null(i)
    }

    /// The width of each slot.
    pub fn value_length(&self) -> (r: i32)
        ensures
            r == Self::spec_value_length(self@),
    {
        match self.data.data_type() {
            DataType::FixedSizeBinary(width) => *width,
            _ => 0,
        }
    }

    /// Where slot `i` starts in the values.
    pub fn value_offset(&self, i: usize) -> (r: i32)
        requires
            self.wf(),
            i < self@.len,
            (self@.offset + i) * Self::spec_value_length(self@) <= i32::MAX,
        ensures
            r == (self@.offset + i) * Self::spec_value_length(self@),
    {
        fixed_offset(self.data.offset() + i, self.value_length())
    }

    /// The array that `array` refers to, if it is an array of byte strings
    /// of one width and laid out as one.
    pub fn from_array_ref(array: &ArrayRef) -> (r: Option<Self>)
        ensures
            match r {
                Some(a) => a@ == array@ && a.wf() && array@.data_type is FixedSizeBinary,
                None => !(Self::layout(array@) && array@.data_type is FixedSizeBinary),
            },
    {
        let data = clone_array_data(array.data());
        let width: i32 = match data.data_type() {
            DataType::FixedSizeBinary(width) => *width,
            _ => {
                return None;
            },
        };
        if fixed_check(&data, width) {
            Some(FixedSizeBinaryArray { data })
        } else {
            None
        }
    }

    /// The bytes of slot `i`.
    pub fn value(&self, i: usize) -> (r: Vec<u8>)
        requires
            self.wf(),
            i < self@.len,
        ensures
            r@ == self.spec_value(i as int),
    {
        fixed_bytes(&self.data, self.value_length() as usize, i)
    }
}

/// Where slot `at` starts in an array of slots of `width` bytes each.
fn fixed_offset(at: usize, width: i32) -> (r: i32)
    requires
        0 <= width,
        at * width <= i32::MAX,
    ensures
        r == at * width,
{
    proof {
        if width > 0 {
            assert(at <= at * width) by (nonlinear_arith)
                requires
                    0 <= at,
                    1 <= width,
            ;
        } else {
            assert(at * width == 0) by (nonlinear_arith)
                requires
                    width == 0,
            ;
        }
    }
    if width == 0 {
        0
    } else {
        (at as i32) * width
    }
}

/// An array of decimals, each held as the 16 little-endian bytes of a
/// 128-bit signed number.
#[derive(Debug, PartialEq, Eq)]
pub struct DecimalArray {
    data: ArrayData,
}

impl View for DecimalArray {
    type V = ArrayDataView;

    closed spec fn view(&self) -> ArrayDataView {
        self.data@
    }
}

impl DecimalArray {
    /// Whether `d` is laid out as an array of slots of one width.
    pub open spec fn layout(d: ArrayDataView) -> bool {
        fixed_layout(d, 16)
    }

    /// The array data is laid out as an array of this type.
    pub open spec fn wf(&self) -> bool {
        Self::layout(self@)
    }

    /// The bytes of slot `i`.
    pub open spec fn spec_value_bytes(&self, i: int) -> Seq<u8> {
        fixed_value(self@, 16, i)
    }

    /// The array over `data`.
    pub fn from_data(data: ArrayData) -> (r: Self)
        requires
            Self::layout(data@),
        ensures
            r@ == data@,
            r.wf(),
    {
        DecimalArray { data }
    }

    /// The array with the bitmap of `v` and the values of its child, declared
    /// as decimals of the given precision and scale.
    pub fn from_fixed_size_list_array(v: FixedSizeListArray, precision: usize, scale: usize) -> (r:
        Self)
        requires
            list_of_bytes(v@),
            Self::layout(fixed_from_list(DataTypeView::Decimal(precision, scale), v@)),
        ensures
            r@ == fixed_from_list(DataTypeView::Decimal(precision, scale), v@),
            r.wf(),
    {
        let data = fixed_data_from_list(DataType::Decimal(precision, scale), v.data());
        DecimalArray { data }
    }

    /// The array data.
    pub fn data(&self) -> (r: &ArrayData)
        ensures
            r@ == self@,
    {
        &self.data
    }

    /// The array data, the array given up.
    pub fn into_data(self) -> (r: ArrayData)
        ensures
            r@ == self@,
    {
        self.data
    }

    /// The array as a handle to an array of any type.
    pub fn into_ref(self) -> (r: ArrayRef)
        ensures
            r@ == self@,
    {
        make_array(self.data)
    }

    /// The declared type.
    pub fn data_type(&self) -> (r: &DataType)
        ensures
            r@ == self@.data_type,
    {
        self.data.data_type()
    }

    /// The number of slots.
    pub fn len(&self) -> (r: usize)
        ensures
            r == self@.len,
    {
        self.data.len()
    }

    /// The number of null slots.
    pub fn null_count(&self) -> (r: usize)
        ensures
            r == self@.null_count,
    {
        self.data.null_count()
    }

    /// Whether slot `i` is null.
    pub fn is_null(&self, i: usize) -> (r: bool)
        requires
            self.wf(),
            i < self@.len,
        ensures
            r == !self@.is_valid(i as int),
    {
        self.data.is_null(i)
    }

    /// The width of each slot: 16 bytes.
    pub fn value_length(&self) -> (r: i32)
        ensures
            r == 16,
    {
        16
    }

    /// Where slot `i` starts in the values.
    pub fn value_offset(&self, i: usize) -> (r: i32)
        requires
            self.wf(),
            i < self@.len,
            (self@.offset + i) * 16 <= i32::MAX,
        ensures
            r == (self@.offset + i) * 16,
    {
        fixed_offset(self.data.offset() + i, 16)
    }

    /// The bytes of slot `i`.
    pub fn value_bytes(&self, i: usize) -> (r: Vec<u8>)
        requires
            self.wf(),
            i < self@.len,
        ensures
            r@ == self.spec_value_bytes(i as int),
    {
        fixed_bytes(&self.data, 16, i)
    }
}

} // verus!
