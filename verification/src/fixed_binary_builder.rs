//! Builders for arrays whose slots all have one width in bytes: byte strings
//! of a declared width, and 128-bit decimals.

use crate::array::{lemma_count_nulls_held, ArrayRef};
use crate::array_builder::ArrayBuilder;
use crate::array_data::ArrayDataView;
use crate::binary_array::{
    fixed_from_list, fixed_layout, fixed_value, list_of_bytes, DecimalArray, FixedSizeBinaryArray,
};
use crate::bit_util::{count_true, lemma_count_true_all, lemma_pack_bits, pack_bits, spec_ceil8};
use crate::boolean_builder::spec_max;
use crate::buffer_builder::MAX_SLOTS;
use crate::byte_order::{i128_bits, i128_to_le_bytes, le_bytes_128};
use crate::datatypes::DataTypeView;
use crate::error::ArrowError;
use crate::list_builder::FixedSizeListBuilder;
use crate::native::{encode_all, lemma_encode_bytes, zeros};
use crate::primitive_builder::PrimitiveBuilder;
use crate::types::UInt8Type;
use vstd::prelude::*;

verus! {

/// The array data of an array of slots of one width.
pub open spec fn fixed_array(
    data_type: DataTypeView,
    data: Seq<u8>,
    validity: Seq<bool>,
    bitmap_len: nat,
) -> ArrayDataView {
    ArrayDataView {
        data_type,
        len: validity.len(),
        null_count: (validity.len() - count_true(validity)) as nat,
        offset: 0,
        buffers: seq![data],
        child_data: Seq::empty(),
        null_bitmap: Some(pack_bits(validity, bitmap_len)),
    }
}

/// The fixed-size list array that a list builder over bytes gives has the
/// parts for an array of slots of one width, laid out as one.
proof fn lemma_fixed_parts(
    list: ArrayDataView,
    data_type: DataTypeView,
    width: int,
    data: Seq<u8>,
    validity: Seq<bool>,
    bitmap_len: nat,
)
    requires
        list.len == validity.len(),
        list.offset == 0,
        list.child_data.len() == 1,
        list.child_data[0].buffers == seq![encode_all(data)],
        list.child_data[0].null_count == 0,
        list.null_bitmap == Some(pack_bits(validity, bitmap_len)),
        validity.len() <= 8 * bitmap_len,
        validity.len() <= MAX_SLOTS,
        validity.len() > 0 ==> 0 <= width && data.len() == validity.len() * width,
    ensures
        list_of_bytes(list),
        fixed_from_list(data_type, list) == fixed_array(data_type, data, validity, bitmap_len),
        fixed_layout(fixed_from_list(data_type, list), width),
        forall|i: int|
            0 <= i < validity.len() ==> #[trigger] fixed_value(
                fixed_from_list(data_type, list),
                width,
                i,
            ) == data.subrange(i * width, (i + 1) * width),
{
    let d = fixed_from_list(data_type, list);
    lemma_pack_bits(validity, bitmap_len);
    lemma_count_nulls_held(pack_bits(validity, bitmap_len), validity);
    lemma_encode_bytes(data);
    assert(d.buffers =~= seq![data]);
}

/// Array builder for byte strings of one declared width.
#[derive(Debug)]
pub struct FixedSizeBinaryBuilder {
    builder: FixedSizeListBuilder<PrimitiveBuilder<UInt8Type>>,
}

impl ArrayBuilder for FixedSizeBinaryBuilder {
    closed spec fn wf(&self) -> bool {
        &&& self.builder.wf()
        &&& !self.builder.spec_values().has_bitmap()
        &&& self.builder.spec_len() > 0 ==> self.builder.spec_value_length() >= 0
        &&& self.data().len() == self.builder.spec_len() * self.builder.spec_value_length()
    }

    closed spec fn spec_len(&self) -> nat {
        self.builder.spec_len()
    }

    open spec fn can_finish(&self) -> bool {
        true
    }

    open spec fn built(&self) -> ArrayDataView {
        fixed_array(
            DataTypeView::FixedSizeBinary(self.spec_value_length()),
            self.data(),
            self.validity(),
            self.byte_len(),
        )
    }

    /// Empty, with the same width.
    open spec fn reset_of(&self, before: &Self) -> bool {
        &&& self.wf()
        &&& self.spec_len() == 0
        &&& self.data() == Seq::<u8>::empty()
        &&& self.validity() == Seq::<bool>::empty()
        &&& self.spec_value_length() == before.spec_value_length()
        &&& self.byte_len() == 0
    }

    proof fn lemma_built_len(&self) {
        self.lemma_wf();
    }

    fn len(&self) -> (r: usize) {
        self.builder.len()
    }

    fn is_empty(&self) -> (r: bool) {
        self.builder.is_empty()
    }

    fn finish(&mut self) -> (r: ArrayRef) {
        FixedSizeBinaryBuilder::finish(self).into_ref()
    }
}

impl FixedSizeBinaryBuilder {
    /// The bytes appended so far, one slot after the other; a null slot
    /// holds zeros.
    pub closed spec fn data(&self) -> Seq<u8> {
        self.builder.spec_values().values()
    }

    /// Which slots hold a value.
    pub closed spec fn validity(&self) -> Seq<bool> {
        self.builder.validity()
    }

    /// The declared width of a slot in bytes.
    pub closed spec fn spec_value_length(&self) -> i32 {
        self.builder.spec_value_length()
    }

    /// The number of bytes that the bitmap holds.
    pub closed spec fn byte_len(&self) -> nat {
        self.builder.byte_len()
    }

    /// What well-formedness says of the public state.
    pub proof fn lemma_wf(&self)
        requires
            self.wf(),
        ensures
            self.validity().len() == self.spec_len(),
            self.spec_len() <= MAX_SLOTS,
            self.data().len() <= MAX_SLOTS,
            self.spec_len() > 0 ==> self.spec_value_length() >= 0,
            self.data().len() == self.spec_len() * self.spec_value_length(),
            spec_ceil8(self.spec_len()) <= self.byte_len(),
    {
        self.builder.lemma_wf();
        self.builder.spec_values().lemma_wf();
    }

    /// A builder of slots of `byte_width` bytes each, with room for
    /// `capacity` bytes of values.
    pub fn new(capacity: usize, byte_width: i32) -> (r: Self)
        requires
            capacity <= MAX_SLOTS,
        ensures
            r.wf(),
            r.spec_len() == 0,
            r.data() == Seq::<u8>::empty(),
            r.validity() == Seq::<bool>::empty(),
            r.spec_value_length() == byte_width,
            r.byte_len() == 0,
    {
        let values_builder = PrimitiveBuilder::<UInt8Type>::new(capacity);
        let r = Self { builder: FixedSizeListBuilder::new(values_builder, byte_width) };
        proof {
            assert(0 * byte_width == 0) by (nonlinear_arith);
        }
        r
    }

    /// Appends the bytes of `value` as one slot. The value must be as wide
    /// as the builder's slots: else nothing is appended.
    pub fn append_value(&mut self, value: &[u8]) -> (r: Result<(), ArrowError>)
        requires
            old(self).wf(),
            old(self).spec_len() < MAX_SLOTS,
            old(self).data().len() + value@.len() <= MAX_SLOTS,
        ensures
            final(self).wf(),
            r is Err <==> value@.len() != old(self).spec_value_length(),
            r is Err ==> r->Err_0 is InvalidArgumentError && *final(self) == *old(self),
            r is Ok ==> {
                &&& final(self).spec_len() == old(self).spec_len() + 1
                &&& final(self).data() == old(self).data() + value@
                &&& final(self).validity() == old(self).validity().push(true)
                &&& final(self).spec_value_length() == old(self).spec_value_length()
                &&& final(self).byte_len() == spec_max(
                    old(self).byte_len(),
                    spec_ceil8(final(self).spec_len()),
                )
            },
    {
        let width: i32 = self.builder.value_length();
        if width < 0 || value.len() != width as usize {
            return Err(
                ArrowError::InvalidArgumentError(
                    "Byte slice does not have the same length as FixedSizeBinaryBuilder value lengths".to_string(),
                ),
            );
        }
        proof {
            self.lemma_wf();
            self.builder.spec_values().lemma_wf();
            assert((self.builder.spec_len() + 1) * width == self.builder.spec_len() * width + width)
                by (nonlinear_arith);
        }
        let _ = self.builder.values().append_slice(value);
        let r = self.builder.append(true);
        proof {
            self.builder.spec_values().lemma_wf();
        }
        r
    }

    /// Appends a null slot: the values grow by a slot of zeros.
    pub fn append_null(&mut self) -> (r: Result<(), ArrowError>)
        requires
            old(self).wf(),
            old(self).spec_value_length() >= 0,
            old(self).spec_len() < MAX_SLOTS,
            old(self).data().len() + old(self).spec_value_length() <= MAX_SLOTS,
        ensures
            r is Ok,
            final(self).wf(),
            final(self).spec_len() == old(self).spec_len() + 1,
            final(self).data() == old(self).data() + zeros(old(self).spec_value_length() as nat),
            final(self).validity() == old(self).validity().push(false),
            final(self).spec_value_length() == old(self).spec_value_length(),
            final(self).byte_len() == spec_max(
                old(self).byte_len(),
                spec_ceil8(final(self).spec_len()),
            ),
    {
        let width: i32 = self.builder.value_length();
        let length: usize = width as usize;
        let zeroed = zero_bytes(length);
        proof {
            self.lemma_wf();
            self.builder.spec_values().lemma_wf();
            assert((self.builder.spec_len() + 1) * width == self.builder.spec_len() * width + width)
                by (nonlinear_arith);
        }
        let _ = self.builder.values().append_slice(zeroed.as_slice());
        let r = self.builder.append(false);
        proof {
            self.builder.spec_values().lemma_wf();
        }
        r
    }

    /// Builds the array and leaves the builder empty. The array always
    /// carries its validity bitmap.
    pub fn finish(&mut self) -> (r: FixedSizeBinaryArray)
        requires
            old(self).wf(),
        ensures
            r@ == old(self).built(),
            r.wf(),
            forall|i: int|
                0 <= i < old(self).spec_len() ==> #[trigger] r.spec_value(i) == old(
                    self,
                ).data().subrange(
                    i * old(self).spec_value_length(),
                    (i + 1) * old(self).spec_value_length(),
                ),
            final(self).reset_of(old(self)),
    {
        proof {
            self.lemma_wf();
            self.builder.lemma_wf();
            self.builder.spec_values().lemma_wf();
            lemma_count_true_all(self.builder.spec_values().validity());
            lemma_fixed_parts(
                self.builder.built(),
                DataTypeView::FixedSizeBinary(self.spec_value_length()),
                self.spec_value_length() as int,
                self.data(),
                self.validity(),
                self.byte_len(),
            );
        }
        let list = self.builder.finish();
        proof {
            self.builder.spec_values().lemma_wf();
            assert(self.data() =~= Seq::<u8>::empty());
            assert(0 * self.spec_value_length() == 0) by (nonlinear_arith);
        }
        FixedSizeBinaryArray::from_list(list)
    }
}

/// `n` zero bytes.
fn zero_bytes(n: usize) -> (r: Vec<u8>)
    ensures
        r@ == zeros(n as nat),
{
    let mut out: Vec<u8> = Vec::new();
    let mut i: usize = 0;
    while i < n
        invariant
            i <= n,
            out@ == zeros(i as nat),
        decreases n - i,
    {
        out.push(0u8);
        i = i + 1;
        proof {
            assert(out@ =~= zeros(i as nat));
        }
    }
    out
}

/// Array builder for decimals: 128-bit signed numbers, each held as its 16
/// little-endian bytes whatever the precision.
#[derive(Debug)]
pub struct DecimalBuilder {
    builder: FixedSizeListBuilder<PrimitiveBuilder<UInt8Type>>,
    precision: usize,
    scale: usize,
}

impl ArrayBuilder for DecimalBuilder {
    closed spec fn wf(&self) -> bool {
        &&& self.builder.wf()
        &&& !self.builder.spec_values().has_bitmap()
        &&& self.builder.spec_value_length() == 16
        &&& self.data().len() == self.builder.spec_len() * 16
    }

    closed spec fn spec_len(&self) -> nat {
        self.builder.spec_len()
    }

    open spec fn can_finish(&self) -> bool {
        true
    }

    open spec fn built(&self) -> ArrayDataView {
        fixed_array(
            DataTypeView::Decimal(self.spec_precision(), self.spec_scale()),
            self.data(),
            self.validity(),
            self.byte_len(),
        )
    }

    /// Empty, with the same precision and scale.
    open spec fn reset_of(&self, before: &Self) -> bool {
        &&& self.wf()
        &&& self.spec_len() == 0
        &&& self.data() == Seq::<u8>::empty()
        &&& self.validity() == Seq::<bool>::empty()
        &&& self.spec_precision() == before.spec_precision()
        &&& self.spec_scale() == before.spec_scale()
        &&& self.byte_len() == 0
    }

    proof fn lemma_built_len(&self) {
        self.lemma_wf();
    }

    fn len(&self) -> (r: usize) {
        self.builder.len()
    }

    fn is_empty(&self) -> (r: bool) {
        self.builder.is_empty()
    }

    fn finish(&mut self) -> (r: ArrayRef) {
        DecimalBuilder::finish(self).into_ref()
    }
}

impl DecimalBuilder {
    /// The bytes appended so far, 16 for each slot; a null slot holds zeros.
    pub closed spec fn data(&self) -> Seq<u8> {
        self.builder.spec_values().values()
    }

    /// Which slots hold a value.
    pub closed spec fn validity(&self) -> Seq<bool> {
        self.builder.validity()
    }

    /// The declared precision.
    pub closed spec fn spec_precision(&self) -> usize {
        self.precision
    }

    /// The declared scale.
    pub closed spec fn spec_scale(&self) -> usize {
        self.scale
    }

    /// The number of bytes that the bitmap holds.
    pub closed spec fn byte_len(&self) -> nat {
        self.builder.byte_len()
    }

    /// What well-formedness says of the public state.
    pub proof fn lemma_wf(&self)
        requires
            self.wf(),
        ensures
            self.validity().len() == self.spec_len(),
            self.spec_len() <= MAX_SLOTS,
            self.data().len() == self.spec_len() * 16,
            self.data().len() <= MAX_SLOTS,
            spec_ceil8(self.spec_len()) <= self.byte_len(),
    {
        self.builder.lemma_wf();
        self.builder.spec_values().lemma_wf();
    }

    /// A builder of decimals of the given precision and scale, with room
    /// for `capacity` bytes of values.
    pub fn new(capacity: usize, precision: usize, scale: usize) -> (r: Self)
        requires
            capacity <= MAX_SLOTS,
        ensures
            r.wf(),
            r.spec_len() == 0,
            r.data() == Seq::<u8>::empty(),
            r.validity() == Seq::<bool>::empty(),
            r.spec_precision() == precision,
            r.spec_scale() == scale,
            r.byte_len() == 0,
    {
        let values_builder = PrimitiveBuilder::<UInt8Type>::new(capacity);
        let byte_width: i32 = 16;
        Self { builder: FixedSizeListBuilder::new(values_builder, byte_width), precision, scale }
    }

    /// Appends a value as one slot of 16 bytes.
    pub fn append_value(&mut self, value: i128) -> (r: Result<(), ArrowError>)
        requires
            old(self).wf(),
            old(self).spec_len() < MAX_SLOTS,
            old(self).data().len() + 16 <= MAX_SLOTS,
        ensures
            r is Ok,
            final(self).wf(),
            final(self).spec_len() == old(self).spec_len() + 1,
            final(self).data() == old(self).data() + le_bytes_128(i128_bits(value)),
            final(self).validity() == old(self).validity().push(true),
            final(self).spec_precision() == old(self).spec_precision(),
            final(self).spec_scale() == old(self).spec_scale(),
            final(self).byte_len() == spec_max(
                old(self).byte_len(),
                spec_ceil8(final(self).spec_len()),
            ),
    {
        let width: i32 = self.builder.value_length();
        let value_as_bytes = match Self::from_i128_to_fixed_size_bytes(value, width as usize) {
            Ok(bytes) => bytes,
            Err(e) => {
                return Err(e);
            },
        };
        if value_as_bytes.len() != width as usize {
            return Err(
                ArrowError::InvalidArgumentError(
                    "Byte slice does not have the same length as DecimalBuilder value lengths".to_string(),
                ),
            );
        }
        proof {
            self.lemma_wf();
            self.builder.spec_values().lemma_wf();
            assert(le_bytes_128(i128_bits(value)).subrange(0, 16) =~= le_bytes_128(
                i128_bits(value),
            ));
        }
        let _ = self.builder.values().append_slice(value_as_bytes.as_slice());
        let r = self.builder.append(true);
        proof {
            self.builder.spec_values().lemma_wf();
        }
        r
    }

    /// The `size` bytes from the high end of the 16 little-endian bytes of
    /// `v`; refused where `size` is more than 16.
    fn from_i128_to_fixed_size_bytes(v: i128, size: usize) -> (r: Result<Vec<u8>, ArrowError>)
        ensures
            r is Err <==> size > 16,
            r is Err ==> r->Err_0 is InvalidArgumentError,
            r is Ok ==> r->Ok_0@ == le_bytes_128(i128_bits(v)).subrange(16 - size, 16),
    {
        if size > 16 {
            return Err(
                ArrowError::InvalidArgumentError(
                    "DecimalBuilder only supports values up to 16 bytes.".to_string(),
                ),
            );
        }
        let res = i128_to_le_bytes(v);
        let start_byte: usize = 16 - size;
        let mut out: Vec<u8> = Vec::new();
        let mut i: usize = start_byte;
        while i < 16
            invariant
                start_byte <= i <= 16,
                res@.len() == 16,
                out@ == res@.subrange(start_byte as int, i as int),
            decreases 16 - i,
        {
            out.push(res[i]);
            i = i + 1;
            proof {
                assert(out@ =~= res@.subrange(start_byte as int, i as int));
            }
        }
        Ok(out)
    }

    /// Appends a null slot: the values grow by 16 zero bytes.
    pub fn append_null(&mut self) -> (r: Result<(), ArrowError>)
        requires
            old(self).wf(),
            old(self).spec_len() < MAX_SLOTS,
            old(self).data().len() + 16 <= MAX_SLOTS,
        ensures
            r is Ok,
            final(self).wf(),
            final(self).spec_len() == old(self).spec_len() + 1,
            final(self).data() == old(self).data() + zeros(16),
            final(self).validity() == old(self).validity().push(false),
            final(self).spec_precision() == old(self).spec_precision(),
            final(self).spec_scale() == old(self).spec_scale(),
            final(self).byte_len() == spec_max(
                old(self).byte_len(),
                spec_ceil8(final(self).spec_len()),
            ),
    {
        let length: usize = self.builder.value_length() as usize;
        let zeroed = zero_bytes(length);
        proof {
            self.lemma_wf();
            self.builder.spec_values().lemma_wf();
        }
        let _ = self.builder.values().append_slice(zeroed.as_slice());
        let r = self.builder.append(false);
        proof {
            self.builder.spec_values().lemma_wf();
        }
        r
    }

    /// Builds the array and leaves the builder empty. The array always
    /// carries its validity bitmap.
    pub fn finish(&mut self) -> (r: DecimalArray)
        requires
            old(self).wf(),
        ensures
            r@ == old(self).built(),
            r.wf(),
            forall|i: int|
                0 <= i < old(self).spec_len() ==> #[trigger] r.spec_value_bytes(i) == old(
                    self,
                ).data().subrange(i * 16, (i + 1) * 16),
            final(self).reset_of(old(self)),
    {
        proof {
            self.lemma_wf();
            self.builder.lemma_wf();
            self.builder.spec_values().lemma_wf();
            lemma_count_true_all(self.builder.spec_values().validity());
            lemma_fixed_parts(
                self.builder.built(),
                DataTypeView::Decimal(self.precision, self.scale),
                16,
                self.data(),
                self.validity(),
                self.byte_len(),
            );
        }
        let list = self.builder.finish();
        proof {
            self.builder.spec_values().lemma_wf();
            assert(self.data() =~= Seq::<u8>::empty());
        }
        DecimalArray::from_fixed_size_list_array(list, self.precision, self.scale)
    }
}

} // verus!
