//! Builders for arrays of byte strings and of text of any length: a list
//! builder over a builder of bytes.

use crate::array::{lemma_count_nulls_held, ArrayRef};
use crate::array_builder::ArrayBuilder;
use crate::array_data::ArrayDataView;
use crate::binary_array::{
    binary_type, list_of_bytes, var_from_list, var_layout, var_start, var_value, GenericBinaryArray,
};
use crate::bit_util::{count_true, lemma_count_true_all, lemma_pack_bits, pack_bits, spec_ceil8};
use crate::boolean_builder::spec_max;
use crate::buffer_builder::MAX_SLOTS;
use crate::error::ArrowError;
use crate::list_builder::GenericListBuilder;
use crate::native::{
    encode_all, lemma_encode_bytes, lemma_encode_len, lemma_encode_slot, lemma_zero_bytes,
    zero_value, ArrowNativeType, OffsetSizeTrait,
};
use crate::primitive_builder::PrimitiveBuilder;
use crate::types::UInt8Type;
use vstd::prelude::*;

verus! {

/// The offsets as numbers.
pub open spec fn offset_values<O: OffsetSizeTrait>(offsets: Seq<O>) -> Seq<int> {
    Seq::new(offsets.len(), |i: int| offsets[i].as_int())
}

/// Whether `offsets` delimit slots of `data`: they start at zero, never go
/// back, and end within `data`.
pub open spec fn delimits(offsets: Seq<int>, data_len: int) -> bool {
    &&& offsets.len() >= 1
    &&& offsets[0] == 0
    &&& forall|i: int, j: int|
        0 <= i <= j < offsets.len() ==> #[trigger] offsets[i] <= #[trigger] offsets[j]
    &&& offsets.last() <= data_len
}

/// The bytes of slot `i`.
pub open spec fn slot_of(data: Seq<u8>, offsets: Seq<int>, i: int) -> Seq<u8> {
    data.subrange(offsets[i], offsets[i + 1])
}

/// The array data of a variable-length array of the given parts.
pub open spec fn var_array(
    data_type: crate::datatypes::DataTypeView,
    offsets: Seq<u8>,
    data: Seq<u8>,
    validity: Seq<bool>,
    bitmap_len: nat,
) -> ArrayDataView {
    ArrayDataView {
        data_type,
        len: validity.len(),
        null_count: (validity.len() - count_true(validity)) as nat,
        offset: 0,
        buffers: seq![offsets, data],
        child_data: Seq::empty(),
        null_bitmap: Some(pack_bits(validity, bitmap_len)),
    }
}

/// Offsets that delimit slots stay between zero and the end of the data.
pub proof fn lemma_delimits(offsets: Seq<int>, data_len: int, i: int)
    requires
        delimits(offsets, data_len),
        0 <= i < offsets.len(),
    ensures
        0 <= offsets[i] <= offsets.last() <= data_len,
{
    assert(offsets[0] <= offsets[i]);
    assert(offsets[i] <= offsets[offsets.len() - 1]);
}

/// Closing a slot at the end of the data keeps the offsets delimiting.
pub proof fn lemma_delimits_push(offsets: Seq<int>, data_len: int, new_len: int)
    requires
        delimits(offsets, data_len),
        data_len <= new_len,
    ensures
        delimits(offsets.push(new_len), new_len),
        delimits(offsets, new_len),
{
    let next = offsets.push(new_len);
    assert forall|i: int, j: int| 0 <= i <= j < next.len() implies #[trigger] next[i]
        <= #[trigger] next[j] by {
        if j < offsets.len() {
            assert(offsets[i] <= offsets[j]);
        } else if i < offsets.len() {
            lemma_delimits(offsets, data_len, i);
        }
    }
}

/// The list array that a list builder over bytes gives has the parts for a
/// variable-length array, laid out as one.
pub proof fn lemma_var_parts<O: OffsetSizeTrait>(
    list: ArrayDataView,
    data_type: crate::datatypes::DataTypeView,
    offsets: Seq<O>,
    data: Seq<u8>,
    validity: Seq<bool>,
    bitmap_len: nat,
)
    requires
        list.len == validity.len(),
        list.offset == 0,
        list.buffers == seq![encode_all(offsets)],
        list.child_data.len() == 1,
        list.child_data[0].buffers == seq![encode_all(data)],
        list.child_data[0].null_count == 0,
        list.null_bitmap == Some(pack_bits(validity, bitmap_len)),
        validity.len() <= 8 * bitmap_len,
        validity.len() < MAX_SLOTS,
        offsets.len() == validity.len() + 1,
        delimits(offset_values(offsets), data.len() as int),
    ensures
        list_of_bytes(list),
        var_from_list(data_type, list) == var_array(
            data_type,
            encode_all(offsets),
            data,
            validity,
            bitmap_len,
        ),
        var_layout::<O>(var_from_list(data_type, list)),
        forall|i: int|
            0 <= i < validity.len() ==> #[trigger] var_value::<O>(var_from_list(data_type, list), i)
                == slot_of(data, offset_values(offsets), i),
{
    let d = var_from_list(data_type, list);
    lemma_pack_bits(validity, bitmap_len);
    lemma_count_nulls_held(pack_bits(validity, bitmap_len), validity);
    lemma_encode_bytes(data);
    lemma_encode_len(offsets);
    assert(d.buffers =~= seq![encode_all(offsets), data]);
    assert forall|i: int| 0 <= i <= validity.len() implies #[trigger] var_start::<O>(d, i)
        == offset_values(offsets)[i] by {
        lemma_encode_slot(offsets, i);
    }
    assert forall|i: int, j: int| 0 <= i <= j <= d.len implies 0 <= #[trigger] var_start::<O>(
        d,
        i,
    ) <= #[trigger] var_start::<O>(d, j) <= d.buffers[1].len() by {
        lemma_delimits(offset_values(offsets), data.len() as int, i);
        lemma_delimits(offset_values(offsets), data.len() as int, j);
        assert(offset_values(offsets)[i] <= offset_values(offsets)[j]);
    }
    assert forall|i: int| 0 <= i < validity.len() implies #[trigger] var_value::<O>(d, i)
        == slot_of(data, offset_values(offsets), i) by {
        assert(var_start::<O>(d, i) == offset_values(offsets)[i]);
        assert(var_start::<O>(d, i + 1) == offset_values(offsets)[i + 1]);
    }
    assert((0 + validity.len() + 1) * O::byte_width() == offsets.len() * O::byte_width())
        by (nonlinear_arith)
        requires
            offsets.len() == validity.len() + 1,
    ;
}

/// Array builder for byte strings of any length.
#[derive(Debug)]
pub struct GenericBinaryBuilder<OffsetSize: OffsetSizeTrait> {
    builder: GenericListBuilder<OffsetSize, PrimitiveBuilder<UInt8Type>>,
}

pub type BinaryBuilder = GenericBinaryBuilder<i32>;

pub type LargeBinaryBuilder = GenericBinaryBuilder<i64>;

impl<OffsetSize: OffsetSizeTrait> ArrayBuilder for GenericBinaryBuilder<OffsetSize> {
    closed spec fn wf(&self) -> bool {
        &&& self.builder.wf()
        &&& !self.builder.spec_values().has_bitmap()
        &&& delimits(self.offsets(), self.data().len() as int)
        &&& self.data().len() <= OffsetSize::spec_max()
    }

    closed spec fn spec_len(&self) -> nat {
        self.builder.spec_len()
    }

    open spec fn can_finish(&self) -> bool {
        true
    }

    open spec fn built(&self) -> ArrayDataView {
        var_array(
            binary_type(OffsetSize::spec_is_large()),
            encode_all(self.spec_offsets()),
            self.data(),
            self.validity(),
            self.byte_len(),
        )
    }

    /// Empty, the offsets a single zero.
    open spec fn reset_of(&self, before: &Self) -> bool {
        &&& self.wf()
        &&& self.spec_len() == 0
        &&& self.data() == Seq::<u8>::empty()
        &&& self.offsets() == seq![0int]
        &&& self.validity() == Seq::<bool>::empty()
        &&& self.byte_len() == 0
    }

    proof fn lemma_built_len(&self) {
        self.lemma_wf();
    }

    fn len(&self) -> (r: usize) {
        self.builder.len()
    }

    fn is_empty(&self) -> (r: bool) {
        self.builder.is_empty()
    }

    fn finish(&mut self) -> (r: ArrayRef) {
        GenericBinaryBuilder::finish(self).into_ref()
    }
}

impl<OffsetSize: OffsetSizeTrait> GenericBinaryBuilder<OffsetSize> {
    /// The bytes appended so far, one after the other.
    pub closed spec fn data(&self) -> Seq<u8> {
        self.builder.spec_values().values()
    }

    /// The offsets: a zero, then for each slot the length of the data when
    /// the slot was closed.
    pub closed spec fn spec_offsets(&self) -> Seq<OffsetSize> {
        self.builder.offsets()
    }

    /// The offsets as numbers.
    pub open spec fn offsets(&self) -> Seq<int> {
        offset_values(self.spec_offsets())
    }

    /// Which slots hold a value.
    pub closed spec fn validity(&self) -> Seq<bool> {
        self.builder.validity()
    }

    /// The number of bytes that the bitmap holds.
    pub closed spec fn byte_len(&self) -> nat {
        self.builder.byte_len()
    }

    /// What well-formedness says of the public state.
    pub proof fn lemma_wf(&self)
        requires
            self.wf(),
        ensures
            self.offsets().len() == self.spec_len() + 1,
            self.validity().len() == self.spec_len(),
            self.spec_len() < MAX_SLOTS,
            self.data().len() <= MAX_SLOTS,
            self.data().len() <= OffsetSize::spec_max(),
            delimits(self.offsets(), self.data().len() as int),
            spec_ceil8(self.spec_len()) <= self.byte_len(),
    {
        self.builder.lemma_wf();
        self.builder.spec_values().lemma_wf();
    }

    /// A builder with room for `capacity` bytes of values.
    pub fn new(capacity: usize) -> (r: Self)
        requires
            capacity <= MAX_SLOTS,
        ensures
            r.wf(),
            r.spec_len() == 0,
            r.data() == Seq::<u8>::empty(),
            r.offsets() == seq![0int],
            r.spec_offsets() == seq![zero_value::<OffsetSize>()],
            r.validity() == Seq::<bool>::empty(),
            r.byte_len() == 0,
    {
        let values_builder = PrimitiveBuilder::<UInt8Type>::new(capacity);
        let r = Self { builder: GenericListBuilder::new(values_builder) };
        proof {
            lemma_zero_bytes::<OffsetSize>();
            assert(r.offsets() =~= seq![0int]);
            OffsetSize::lemma_offset(zero_value::<OffsetSize>());
        }
        r
    }

    /// Appends one byte to the values. Call `append` to close the slot that
    /// the bytes appended since the last slot make up.
    pub fn append_byte(&mut self, value: u8) -> (r: Result<(), ArrowError>)
        requires
            old(self).wf(),
            old(self).data().len() < MAX_SLOTS,
            old(self).data().len() < OffsetSize::spec_max(),
        ensures
            r is Ok,
            final(self).wf(),
            final(self).spec_len() == old(self).spec_len(),
            final(self).data() == old(self).data().push(value),
            final(self).spec_offsets() == old(self).spec_offsets(),
            final(self).validity() == old(self).validity(),
            final(self).byte_len() == old(self).byte_len(),
    {
        proof {
            self.lemma_wf();
            self.builder.spec_values().lemma_wf();
            lemma_delimits_push(
                self.offsets(),
                self.data().len() as int,
                (self.data().len() + 1) as int,
            );
        }
        let _ = self.builder.values().append_value(value);
        proof {
            self.builder.spec_values().lemma_wf();
        }
        Ok(())
    }

    /// Appends the bytes of `value` to the values and closes the slot.
    pub fn append_value(&mut self, value: &[u8]) -> (r: Result<(), ArrowError>)
        requires
            old(self).wf(),
            old(self).spec_len() + 1 < MAX_SLOTS,
            old(self).data().len() + value@.len() <= MAX_SLOTS,
            old(self).data().len() + value@.len() <= OffsetSize::spec_max(),
        ensures
            r is Ok,
            final(self).wf(),
            final(self).spec_len() == old(self).spec_len() + 1,
            final(self).data() == old(self).data() + value@,
            final(self).offsets() == old(self).offsets().push(final(self).data().len() as int),
            final(self).validity() == old(self).validity().push(true),
            final(self).byte_len() == spec_max(
                old(self).byte_len(),
                spec_ceil8(final(self).spec_len()),
            ),
    {
        proof {
            self.lemma_wf();
            self.builder.spec_values().lemma_wf();
            lemma_delimits_push(
                self.offsets(),
                self.data().len() as int,
                (self.data().len() + value@.len()) as int,
            );
        }
        let _ = self.builder.values().append_slice(value);
        let _ = self.builder.append(true);
        proof {
            self.builder.spec_values().lemma_wf();
            assert(self.offsets().drop_last() =~= old(self).offsets());
            assert(self.offsets() =~= old(self).offsets().push(self.data().len() as int));
        }
        Ok(())
    }

    /// Closes the current slot: it holds the bytes appended since the last
    /// slot was closed, and is null unless `is_valid`.
    pub fn append(&mut self, is_valid: bool) -> (r: Result<(), ArrowError>)
        requires
            old(self).wf(),
            old(self).spec_len() + 1 < MAX_SLOTS,
        ensures
            r is Ok,
            final(self).wf(),
            final(self).spec_len() == old(self).spec_len() + 1,
            final(self).data() == old(self).data(),
            final(self).offsets() == old(self).offsets().push(old(self).data().len() as int),
            final(self).validity() == old(self).validity().push(is_valid),
            final(self).byte_len() == spec_max(
                old(self).byte_len(),
                spec_ceil8(final(self).spec_len()),
            ),
    {
        proof {
            self.lemma_wf();
            self.builder.spec_values().lemma_wf();
            lemma_delimits_push(self.offsets(), self.data().len() as int, self.data().len() as int);
        }
        let r = self.builder.append(is_valid);
        proof {
            self.builder.spec_values().lemma_wf();
            assert(self.offsets().drop_last() =~= old(self).offsets());
            assert(self.offsets() =~= old(self).offsets().push(self.data().len() as int));
        }
        r
    }

    /// Closes the current slot as null.
    pub fn append_null(&mut self) -> (r: Result<(), ArrowError>)
        requires
            old(self).wf(),
            old(self).spec_len() + 1 < MAX_SLOTS,
        ensures
            r is Ok,
            final(self).wf(),
            final(self).spec_len() == old(self).spec_len() + 1,
            final(self).data() == old(self).data(),
            final(self).offsets() == old(self).offsets().push(old(self).data().len() as int),
            final(self).validity() == old(self).validity().push(false),
            final(self).byte_len() == spec_max(
                old(self).byte_len(),
                spec_ceil8(final(self).spec_len()),
            ),
    {
        self.append(false)
    }

    /// Builds the array and leaves the builder empty. The array always
    /// carries its validity bitmap.
    pub fn finish(&mut self) -> (r: GenericBinaryArray<OffsetSize>)
        requires
            old(self).wf(),
        ensures
            r@ == old(self).built(),
            r.wf(),
            forall|i: int|
                0 <= i < old(self).spec_len() ==> #[trigger] r.spec_value(i) == slot_of(
                    old(self).data(),
                    old(self).offsets(),
                    i,
                ),
            final(self).reset_of(old(self)),
    {
        proof {
            self.lemma_wf();
            self.builder.lemma_wf();
            self.builder.spec_values().lemma_wf();
            lemma_count_true_all(self.builder.spec_values().validity());
            lemma_var_parts::<OffsetSize>(
                self.builder.built(),
                binary_type(OffsetSize::spec_is_large()),
                self.spec_offsets(),
                self.data(),
                self.validity(),
                self.byte_len(),
            );
        }
        let list = self.builder.finish();
        proof {
            self.builder.spec_values().lemma_wf();
            assert(self.builder.spec_values().values() =~= Seq::<u8>::empty());
            lemma_zero_bytes::<OffsetSize>();
            assert(self.offsets() =~= seq![0int]);
            assert(self.data() =~= Seq::<u8>::empty());
            OffsetSize::lemma_offset(zero_value::<OffsetSize>());
        }
        GenericBinaryArray::from_list(list)
    }
}

} // verus!
