//! Builders for arrays of lists. The items go into a child builder; `append`
//! closes the list that the items appended since the last `append` make up.

use crate::array::{lemma_count_nulls_held, nested_data, ArrayRef};
use crate::array_builder::ArrayBuilder;
use crate::array_data::{ArrayData, ArrayDataView};
use crate::bit_util::{count_true, holds_bits, pack_bits, spec_ceil8};
use crate::boolean_builder::spec_max;
use crate::buffer::Buffer;
use crate::buffer_builder::{MAX_SLOTS, BooleanBufferBuilder, BufferBuilder};
use crate::datatypes::{clone_data_type, DataType, Field};
use crate::error::ArrowError;
use crate::list_array::{fixed_size_list_type, list_type, FixedSizeListArray, GenericListArray};
use crate::native::{encode_all, zero_value, ArrowNativeType, OffsetSizeTrait};
use vstd::prelude::*;

verus! {

/// Array builder for variable-length lists with offsets of type
/// `OffsetSize` and items built by a `T`.
#[derive(Debug)]
pub struct GenericListBuilder<OffsetSize: OffsetSizeTrait, T: ArrayBuilder> {
    offsets_builder: BufferBuilder<OffsetSize>,
    bitmap_builder: BooleanBufferBuilder,
    values_builder: T,
    len: usize,
}

pub type ListBuilder<T> = GenericListBuilder<i32, T>;

pub type LargeListBuilder<T> = GenericListBuilder<i64, T>;

impl<OffsetSize: OffsetSizeTrait, T: ArrayBuilder> ArrayBuilder for GenericListBuilder<
    OffsetSize,
    T,
> {
    open spec fn wf(&self) -> bool {
        self.frame_wf() && self.spec_values().wf()
    }

    closed spec fn spec_len(&self) -> nat {
        self.len as nat
    }

    open spec fn can_finish(&self) -> bool {
        self.spec_values().can_finish()
    }

    open spec fn built(&self) -> ArrayDataView {
        ArrayDataView {
            data_type: list_type(OffsetSize::spec_is_large(), self.spec_values().built().data_type),
            len: self.spec_len(),
            null_count: (self.spec_len() - count_true(self.validity())) as nat,
            offset: 0,
            buffers: seq![encode_all(self.offsets())],
            child_data: seq![self.spec_values().built()],
            null_bitmap: Some(pack_bits(self.validity(), self.byte_len())),
        }
    }

    /// Empty, the offsets a single zero, and the child finished too.
    open spec fn reset_of(&self, before: &Self) -> bool {
        &&& self.wf()
        &&& self.spec_len() == 0
        &&& self.spec_values().reset_of(&before.spec_values())
        &&& self.spec_values().spec_len() == 0
        &&& self.offsets() == seq![zero_value::<OffsetSize>()]
        &&& self.validity() == Seq::<bool>::empty()
        &&& self.byte_len() == 0
    }

    proof fn lemma_built_len(&self) {
    }

    fn len(&self) -> (r: usize) {
        self.len
    }

    fn is_empty(&self) -> (r: bool) {
        self.len == 0
    }

    fn finish(&mut self) -> (r: ArrayRef) {
        GenericListBuilder::finish(self).into_ref()
    }
}

impl<OffsetSize: OffsetSizeTrait, T: ArrayBuilder> GenericListBuilder<OffsetSize, T> {
    /// The child builder.
    pub closed spec fn spec_values(&self) -> T {
        self.values_builder
    }

    /// The offsets: a zero, then for each slot the length of the child when
    /// the slot was closed.
    pub closed spec fn offsets(&self) -> Seq<OffsetSize> {
        self.offsets_builder@
    }

    /// Which slots hold a list.
    pub closed spec fn validity(&self) -> Seq<bool> {
        self.bitmap_builder@
    }

    /// The number of bytes that the bitmap holds.
    pub closed spec fn byte_len(&self) -> nat {
        self.bitmap_builder.bytes().len()
    }

    /// The parts other than the child agree with each other.
    pub closed spec fn frame_wf(&self) -> bool {
        &&& self.offsets_builder.wf()
        &&& self.bitmap_builder.wf()
        &&& self.offsets_builder.spec_len() == self.len + 1
        &&& self.bitmap_builder.spec_len() == self.len
        &&& self.len < MAX_SLOTS
    }

    /// What well-formedness says of the public state.
    pub proof fn lemma_wf(&self)
        requires
            self.frame_wf(),
        ensures
            self.offsets().len() == self.spec_len() + 1,
            self.validity().len() == self.spec_len(),
            self.spec_len() < MAX_SLOTS,
            spec_ceil8(self.spec_len()) <= self.byte_len(),
    {
        self.offsets_builder.lemma_wf();
        self.bitmap_builder.lemma_wf();
    }

    /// A list builder over `values_builder`, with room for as many lists as
    /// `values_builder` holds slots.
    pub fn new(values_builder: T) -> (r: Self)
        requires
            values_builder.wf(),
            values_builder.spec_len() < MAX_SLOTS,
        ensures
            r.wf(),
            r.spec_len() == 0,
            r.spec_values() == values_builder,
            r.offsets() == seq![zero_value::<OffsetSize>()],
            r.validity() == Seq::<bool>::empty(),
            r.byte_len() == spec_ceil8(values_builder.spec_len()),
    {
        let capacity: usize = values_builder.len();
        Self::with_capacity(values_builder, capacity)
    }

    /// A list builder over `values_builder`, with room for `capacity` lists.
    pub fn with_capacity(values_builder: T, capacity: usize) -> (r: Self)
        requires
            values_builder.wf(),
            capacity < MAX_SLOTS,
        ensures
            r.wf(),
            r.spec_len() == 0,
            r.spec_values() == values_builder,
            r.offsets() == seq![zero_value::<OffsetSize>()],
            r.validity() == Seq::<bool>::empty(),
            r.byte_len() == spec_ceil8(capacity as nat),
    {
        let mut offsets_builder = BufferBuilder::<OffsetSize>::new(capacity + 1);
        let zero = Self::zero_offset();
        offsets_builder.append(zero);
        proof {
            assert(offsets_builder@ =~= seq![zero_value::<OffsetSize>()]);
        }
        Self {
            offsets_builder,
            bitmap_builder: BooleanBufferBuilder::new(capacity),
            values_builder,
            len: 0,
        }
    }

    /// The offset zero.
    fn zero_offset() -> (r: OffsetSize)
        ensures
            r == zero_value::<OffsetSize>(),
    {
        proof {
            let shift = (8 * OffsetSize::byte_width()) as u64;
            assert(0u64 >> shift == 0) by (bit_vector);
        }
        OffsetSize::from_bits(0)
    }

    /// The child builder, to append items to. Call `append` to close each
    /// list.
    pub fn values(&mut self) -> (r: &mut T)
        ensures
            *r == old(self).spec_values(),
            final(self).spec_values() == *final(r),
            final(self).frame_wf() == old(self).frame_wf(),
            final(self).spec_len() == old(self).spec_len(),
            final(self).offsets() == old(self).offsets(),
            final(self).validity() == old(self).validity(),
            final(self).byte_len() == old(self).byte_len(),
    {
        &mut self.values_builder
    }

    /// Closes the current list: it holds the items appended to the child
    /// since the last list was closed, and is null unless `is_valid`. The
    /// child is not touched.
    pub fn append(&mut self, is_valid: bool) -> (r: Result<(), ArrowError>)
        requires
            old(self).wf(),
            old(self).spec_len() + 1 < MAX_SLOTS,
            old(self).spec_values().spec_len() <= OffsetSize::spec_max(),
        ensures
            r is Ok,
            final(self).wf(),
            final(self).spec_len() == old(self).spec_len() + 1,
            final(self).spec_values() == old(self).spec_values(),
            final(self).offsets().len() == old(self).offsets().len() + 1,
            final(self).offsets().drop_last() == old(self).offsets(),
            final(self).offsets().last().as_int() == old(self).spec_values().spec_len(),
            final(self).validity() == old(self).validity().push(is_valid),
            final(self).byte_len() == spec_max(
                old(self).byte_len(),
                spec_ceil8(final(self).spec_len()),
            ),
    {
        proof {
            self.lemma_wf();
        }
        let end = OffsetSize::from_index(self.values_builder.len());
        self.offsets_builder.append(end);
        self.bitmap_builder.append(is_valid);
        self.len += 1;
        proof {
            assert(self.offsets().drop_last() =~= old(self).offsets());
        }
        Ok(())
    }

    /// Builds the array and leaves the builder empty: the child is finished
    /// too, and the offsets start again at a single zero. The array always
    /// carries its validity bitmap.
    pub fn finish(&mut self) -> (r: GenericListArray<OffsetSize>)
        requires
            old(self).wf(),
            old(self).can_finish(),
        ensures
            r@ == old(self).built(),
            r.wf(),
            final(self).reset_of(old(self)),
    {
        let (len, values_data, offset_buffer, null_bit_buffer) = self.take_parts();
        let field = Box::new(Field::new("item", clone_data_type(values_data.data_type()), true));
        let data_type = if OffsetSize::is_large() {
            DataType::LargeList(field)
        } else {
            DataType::List(field)
        };
        proof {
            lemma_count_nulls_held(null_bit_buffer@, old(self).validity());
        }
        let data = nested_data(data_type, len, Some(offset_buffer), values_data, null_bit_buffer);
        GenericListArray::from_data(data)
    }

    /// Freezes the parts and leaves the builder empty.
    fn take_parts(&mut self) -> (r: (usize, ArrayData, Buffer, Buffer))
        requires
            old(self).wf(),
            old(self).can_finish(),
        ensures
            r.0 == old(self).spec_len(),
            r.1@ == old(self).spec_values().built(),
            r.2@ == encode_all(old(self).offsets()),
            r.2@.len() == (0 + old(self).spec_len() + 1) * OffsetSize::byte_width(),
            r.3@ == pack_bits(old(self).validity(), old(self).byte_len()),
            holds_bits(r.3@, old(self).validity()),
            old(self).validity().len() == old(self).spec_len(),
            old(self).spec_len() < MAX_SLOTS,
            final(self).reset_of(old(self)),
    {
        proof {
            self.lemma_wf();
            self.offsets_builder.lemma_wf();
            self.bitmap_builder.lemma_wf();
        }
        let len: usize = self.len;
        self.len = 0;
        let values_arr = self.values_builder.finish();
        let values_data = values_arr.into_data();
        let offset_buffer = self.offsets_builder.finish();
        let null_bit_buffer = self.bitmap_builder.finish();
        let zero = Self::zero_offset();
        self.offsets_builder.append(zero);
        proof {
            assert(self.offsets_builder@ =~= seq![zero_value::<OffsetSize>()]);
        }
        (len, values_data, offset_buffer, null_bit_buffer)
    }
}

/// The array that a list builder builds has the builder's offsets: list `i`
/// spans the child's slots from offset `i` up to offset `i + 1`, so its
/// length is the difference of the two.
pub proof fn lemma_built_offsets<OffsetSize: OffsetSizeTrait, T: ArrayBuilder>(
    builder: GenericListBuilder<OffsetSize, T>,
    array: GenericListArray<OffsetSize>,
)
    requires
        builder.wf(),
        array@ == builder.built(),
    ensures
        array.spec_offsets() == builder.offsets(),
        forall|i: int|
            0 <= i <= builder.spec_len() ==> #[trigger] array.spec_offset(i) == builder.offsets()[i],
{
    builder.lemma_wf();
    assert forall|i: int| 0 <= i <= builder.spec_len() implies #[trigger] array.spec_offset(i)
        == builder.offsets()[i] by {
        crate::native::lemma_encode_slot(builder.offsets(), i);
    }
    assert(array.spec_offsets() =~= builder.offsets());
}

/// Array builder for lists of one fixed length, with items built by a `T`.
#[derive(Debug)]
pub struct FixedSizeListBuilder<T: ArrayBuilder> {
    bitmap_builder: BooleanBufferBuilder,
    values_builder: T,
    len: usize,
    list_len: i32,
}

impl<T: ArrayBuilder> ArrayBuilder for FixedSizeListBuilder<T> {
    open spec fn wf(&self) -> bool {
        self.frame_wf() && self.spec_values().wf()
    }

    closed spec fn spec_len(&self) -> nat {
        self.len as nat
    }

    /// Where there is a list at all, the child holds exactly `value_length`
    /// items for each.
    open spec fn can_finish(&self) -> bool {
        &&& self.spec_values().can_finish()
        &&& self.spec_len() != 0 ==> self.spec_value_length() >= 0 && self.spec_values().spec_len()
            == self.spec_len() * self.spec_value_length()
    }

    open spec fn built(&self) -> ArrayDataView {
        ArrayDataView {
            data_type: fixed_size_list_type(
                self.spec_values().built().data_type,
                self.spec_value_length(),
            ),
            len: self.spec_len(),
            null_count: (self.spec_len() - count_true(self.validity())) as nat,
            offset: 0,
            buffers: Seq::empty(),
            child_data: seq![self.spec_values().built()],
            null_bitmap: Some(pack_bits(self.validity(), self.byte_len())),
        }
    }

    /// Empty, with the same list length, and the child finished too.
    open spec fn reset_of(&self, before: &Self) -> bool {
        &&& self.wf()
        &&& self.spec_len() == 0
        &&& self.spec_values().reset_of(&before.spec_values())
        &&& self.spec_values().spec_len() == 0
        &&& self.spec_value_length() == before.spec_value_length()
        &&& self.validity() == Seq::<bool>::empty()
        &&& self.byte_len() == 0
    }

    proof fn lemma_built_len(&self) {
    }

    fn len(&self) -> (r: usize) {
        self.len
    }

    fn is_empty(&self) -> (r: bool) {
        self.len == 0
    }

    fn finish(&mut self) -> (r: ArrayRef) {
        FixedSizeListBuilder::finish(self).into_ref()
    }
}

impl<T: ArrayBuilder> FixedSizeListBuilder<T> {
    /// The child builder.
    pub closed spec fn spec_values(&self) -> T {
        self.values_builder
    }

    /// The number of items in each list.
    pub closed spec fn spec_value_length(&self) -> i32 {
        self.list_len
    }

    /// Which slots hold a list.
    pub closed spec fn validity(&self) -> Seq<bool> {
        self.bitmap_builder@
    }

    /// The number of bytes that the bitmap holds.
    pub closed spec fn byte_len(&self) -> nat {
        self.bitmap_builder.bytes().len()
    }

    /// The parts other than the child agree with each other.
    pub closed spec fn frame_wf(&self) -> bool {
        &&& self.bitmap_builder.wf()
        &&& self.bitmap_builder.spec_len() == self.len
        &&& self.len <= MAX_SLOTS
    }

    /// What well-formedness says of the public state.
    pub proof fn lemma_wf(&self)
        requires
            self.frame_wf(),
        ensures
            self.validity().len() == self.spec_len(),
            self.spec_len() <= MAX_SLOTS,
            spec_ceil8(self.spec_len()) <= self.byte_len(),
    {
        self.bitmap_builder.lemma_wf();
    }

    /// A builder of lists of `length` items each over `values_builder`, with
    /// room for as many lists as `values_builder` holds slots.
    pub fn new(values_builder: T, length: i32) -> (r: Self)
        requires
            values_builder.wf(),
            values_builder.spec_len() <= MAX_SLOTS,
        ensures
            r.wf(),
            r.spec_len() == 0,
            r.spec_values() == values_builder,
            r.spec_value_length() == length,
            r.validity() == Seq::<bool>::empty(),
            r.byte_len() == spec_ceil8(values_builder.spec_len()),
    {
        let capacity: usize = values_builder.len();
        Self::with_capacity(values_builder, length, capacity)
    }

    /// A builder of lists of `length` items each over `values_builder`, with
    /// room for `capacity` lists.
    pub fn with_capacity(values_builder: T, length: i32, capacity: usize) -> (r: Self)
        requires
            values_builder.wf(),
            capacity <= MAX_SLOTS,
        ensures
            r.wf(),
            r.spec_len() == 0,
            r.spec_values() == values_builder,
            r.spec_value_length() == length,
            r.validity() == Seq::<bool>::empty(),
            r.byte_len() == spec_ceil8(capacity as nat),
    {
        Self {
            bitmap_builder: BooleanBufferBuilder::new(capacity),
            values_builder,
            len: 0,
            list_len: length,
        }
    }

    /// The child builder, to append items to. Call `append` to close each
    /// list.
    pub fn values(&mut self) -> (r: &mut T)
        ensures
            *r == old(self).spec_values(),
            final(self).spec_values() == *final(r),
            final(self).frame_wf() == old(self).frame_wf(),
            final(self).spec_len() == old(self).spec_len(),
            final(self).spec_value_length() == old(self).spec_value_length(),
            final(self).validity() == old(self).validity(),
            final(self).byte_len() == old(self).byte_len(),
    {
        &mut self.values_builder
    }

    /// The number of items in each list.
    pub fn value_length(&self) -> (r: i32)
        ensures
            r == self.spec_value_length(),
    {
        self.list_len
    }

    /// Closes the current list; it is null unless `is_valid`. The child is
    /// not touched.
    pub fn append(&mut self, is_valid: bool) -> (r: Result<(), ArrowError>)
        requires
            old(self).wf(),
            old(self).spec_len() < MAX_SLOTS,
        ensures
            r is Ok,
            final(self).wf(),
            final(self).spec_len() == old(self).spec_len() + 1,
            final(self).spec_values() == old(self).spec_values(),
            final(self).spec_value_length() == old(self).spec_value_length(),
            final(self).validity() == old(self).validity().push(is_valid),
            final(self).byte_len() == spec_max(
                old(self).byte_len(),
                spec_ceil8(final(self).spec_len()),
            ),
    {
        self.bitmap_builder.append(is_valid);
        self.len += 1;
        Ok(())
    }

    /// Whether the child holds exactly `value_length` items for each list,
    /// where there is a list at all: what `finish` asks for.
    pub fn has_whole_lists(&self) -> (r: bool)
        requires
            self.wf(),
        ensures
            r == (self.spec_len() != 0 ==> self.spec_value_length() >= 0
                && self.spec_values().spec_len() == self.spec_len() * self.spec_value_length()),
    {
        if self.len == 0 {
            return true;
        }
        if self.list_len < 0 {
            return false;
        }
        let stride: usize = self.list_len as usize;
        let items: usize = self.values_builder.len();
        let len: usize = self.len;
        proof {
            assert(items / len == stride && items % len == 0 <==> items == len * stride)
                by (nonlinear_arith)
                requires
                    len > 0,
                    items >= 0,
                    stride >= 0,
            ;
        }
        items / len == stride && items % len == 0
    }

    /// Builds the array and leaves the builder empty: the child is finished
    /// too. The array always carries its validity bitmap.
    pub fn finish(&mut self) -> (r: FixedSizeListArray)
        requires
            old(self).wf(),
            old(self).can_finish(),
        ensures
            r@ == old(self).built(),
            r.wf(),
            final(self).reset_of(old(self)),
    {
        proof {
            self.lemma_wf();
            self.bitmap_builder.lemma_wf();
            lemma_count_nulls_held(self.bitmap_builder.bytes(), self.bitmap_builder@);
        }
        let len: usize = self.len;
        self.len = 0;
        let values_arr = self.values_builder.finish();
        let values_data = values_arr.into_data();

        let null_bit_buffer = self.bitmap_builder.finish();
        let data_type = DataType::FixedSizeList(
            Box::new(Field::new("item", clone_data_type(values_data.data_type()), true)),
            self.list_len,
        );
        let data = nested_data(data_type, len, None, values_data, null_bit_buffer);
        FixedSizeListArray::from_data(data)
    }
}

} // verus!
