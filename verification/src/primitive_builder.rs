//! Builder for arrays of fixed-width values, with a validity bitmap that
//! comes into being only when the first null is appended.

use crate::array::{flat_array, flat_data_of, lemma_flat_values, ArrayRef, PrimitiveArray};
use crate::array_builder::ArrayBuilder;
use crate::array_data::ArrayDataView;
use crate::bit_util::{
    count_true, lemma_count_true_all, lemma_count_true_bounds, spec_ceil8, spec_round64,
};
use crate::buffer::{grown_capacity, Buffer};
use crate::buffer_builder::{repeat, MAX_SLOTS, BooleanBufferBuilder, BufferBuilder};
use crate::dictionary_array::{dictionary_array, dictionary_data_of, DictionaryArray};
use crate::error::ArrowError;
use crate::native::{encode_all, from_bytes, slot_bytes, zero_value, ArrowNativeType};
use crate::types::ArrowPrimitiveType;
use vstd::prelude::*;

verus! {

/// Whether some entry of `bits` is `false`.
pub open spec fn has_false(bits: Seq<bool>) -> bool {
    exists|i: int| 0 <= i < bits.len() && !#[trigger] bits[i]
}

/// Array builder for fixed-width primitive types.
#[derive(Debug)]
pub struct PrimitiveBuilder<T: ArrowPrimitiveType> {
    values_builder: BufferBuilder<T::Native>,
    /// Made only when a null is appended: until then every slot is valid.
    bitmap_builder: Option<BooleanBufferBuilder>,
}

impl<T: ArrowPrimitiveType> ArrayBuilder for PrimitiveBuilder<T> {
    closed spec fn wf(&self) -> bool {
        &&& self.values_builder.wf()
        &&& match self.bitmap_builder {
            Some(b) => b.wf() && b.spec_len() == self.values_builder.spec_len() && b.bytes().len()
                == spec_ceil8(b.spec_len()),
            None => true,
        }
    }

    closed spec fn spec_len(&self) -> nat {
        self.values_builder.spec_len()
    }

    open spec fn can_finish(&self) -> bool {
        true
    }

    open spec fn built(&self) -> ArrayDataView {
        flat_array(
            T::spec_data_type(),
            encode_all(self.values()),
            self.validity(),
            spec_ceil8(self.spec_len()),
        )
    }

    /// Empty, with no capacity; the bitmap is there if it was before.
    open spec fn reset_of(&self, before: &Self) -> bool {
        &&& self.wf()
        &&& self.spec_len() == 0
        &&& self.values() == Seq::<T::Native>::empty()
        &&& self.validity() == Seq::<bool>::empty()
        &&& self.has_bitmap() == before.has_bitmap()
        &&& self.byte_capacity() == 0
    }

    proof fn lemma_built_len(&self) {
        self.lemma_wf();
    }

    fn len(&self) -> (r: usize) {
        self.values_builder.len()
    }

    fn is_empty(&self) -> (r: bool) {
        self.values_builder.is_empty()
    }

    fn finish(&mut self) -> (r: ArrayRef) {
        PrimitiveBuilder::finish(self).into_ref()
    }
}

impl<T: ArrowPrimitiveType> PrimitiveBuilder<T> {
    /// The values of the slots; a null slot holds zero.
    pub closed spec fn values(&self) -> Seq<T::Native> {
        self.values_builder@
    }

    /// Whether the validity bitmap has come into being.
    pub closed spec fn has_bitmap(&self) -> bool {
        self.bitmap_builder is Some
    }

    /// Which slots hold a value.
    pub closed spec fn validity(&self) -> Seq<bool> {
        match self.bitmap_builder {
            Some(b) => b@,
            None => repeat(true, self.values_builder.spec_len()),
        }
    }

    /// The capacity of the values' byte region.
    pub closed spec fn byte_capacity(&self) -> nat {
        self.values_builder.byte_capacity()
    }

    /// What well-formedness says of the public state.
    pub proof fn lemma_wf(&self)
        requires
            self.wf(),
        ensures
            self.values().len() == self.spec_len(),
            self.validity().len() == self.spec_len(),
            self.spec_len() <= MAX_SLOTS,
            !self.has_bitmap() ==> self.validity() == repeat(true, self.spec_len()),
    {
        self.values_builder.lemma_wf();
        match self.bitmap_builder {
            Some(b) => {
                b.lemma_wf();
            },
            None => {},
        }
    }

    /// A builder with room for at least `capacity` values, and no bitmap.
    pub fn new(capacity: usize) -> (r: Self)
        requires
            capacity <= MAX_SLOTS,
        ensures
            r.wf(),
            r.spec_len() == 0,
            r.values() == Seq::<T::Native>::empty(),
            r.validity() == Seq::<bool>::empty(),
            !r.has_bitmap(),
            r.byte_capacity() == spec_round64(capacity as nat * T::Native::byte_width()),
    {
        let r = Self { values_builder: BufferBuilder::<T::Native>::new(capacity), bitmap_builder: None };
        proof {
            assert(r.validity() =~= Seq::<bool>::empty());
        }
        r
    }

    /// The number of values that fit the values' byte region as it is.
    pub fn capacity(&self) -> (r: usize)
        ensures
            r == self.byte_capacity() / T::Native::byte_width(),
    {
        self.values_builder.capacity()
    }

    /// Appends a value.
    pub fn append_value(&mut self, v: T::Native) -> (r: Result<(), ArrowError>)
        requires
            old(self).wf(),
            old(self).spec_len() < MAX_SLOTS,
        ensures
            r is Ok,
            final(self).wf(),
            final(self).spec_len() == old(self).spec_len() + 1,
            final(self).values() == old(self).values().push(v),
            final(self).validity() == old(self).validity().push(true),
            final(self).has_bitmap() == old(self).has_bitmap(),
            final(self).byte_capacity() == grown_capacity(
                old(self).byte_capacity(),
                ((old(self).spec_len() + 1) * T::Native::byte_width()) as int,
            ),
    {
        proof {
            self.lemma_wf();
        }
        match &mut self.bitmap_builder {
            Some(b) => {
                b.append(true);
            },
            None => {},
        }
        self.values_builder.append(v);
        proof {
            assert(self.validity() =~= old(self).validity().push(true));
        }
        Ok(())
    }

    /// Appends a null slot: the bitmap comes into being if it has not yet,
    /// and the slot's value is zero.
    pub fn append_null(&mut self) -> (r: Result<(), ArrowError>)
        requires
            old(self).wf(),
            old(self).spec_len() < MAX_SLOTS,
        ensures
            r is Ok,
            final(self).wf(),
            final(self).spec_len() == old(self).spec_len() + 1,
            final(self).values() == old(self).values().push(zero_value::<T::Native>()),
            final(self).validity() == old(self).validity().push(false),
            final(self).has_bitmap(),
            final(self).byte_capacity() == grown_capacity(
                old(self).byte_capacity(),
                ((old(self).spec_len() + 1) * T::Native::byte_width()) as int,
            ),
    {
        proof {
            self.lemma_wf();
        }
        self.materialize_bitmap_builder();
        match &mut self.bitmap_builder {
            Some(b) => {
                b.append(false);
            },
            None => {},
        }
        self.values_builder.advance(1);
        proof {
            assert(self.values() =~= old(self).values().push(zero_value::<T::Native>()));
            assert(self.validity() =~= old(self).validity().push(false));
        }
        Ok(())
    }

    /// Appends a value, or a null slot for `None`.
    pub fn append_option(&mut self, v: Option<T::Native>) -> (r: Result<(), ArrowError>)
        requires
            old(self).wf(),
            old(self).spec_len() < MAX_SLOTS,
        ensures
            r is Ok,
            final(self).wf(),
            final(self).spec_len() == old(self).spec_len() + 1,
            final(self).values() == old(self).values().push(
                match v {
                    Some(x) => x,
                    None => zero_value::<T::Native>(),
                },
            ),
            final(self).validity() == old(self).validity().push(v is Some),
            final(self).has_bitmap() == (old(self).has_bitmap() || v is None),
            final(self).byte_capacity() == grown_capacity(
                old(self).byte_capacity(),
                ((old(self).spec_len() + 1) * T::Native::byte_width()) as int,
            ),
    {
        match v {
            None => self.append_null(),
            Some(v) => self.append_value(v),
        }
    }

    /// Appends the values of `v`, all of them valid.
    pub fn append_slice(&mut self, v: &[T::Native]) -> (r: Result<(), ArrowError>)
        requires
            old(self).wf(),
            old(self).spec_len() + v@.len() <= MAX_SLOTS,
        ensures
            r is Ok,
            final(self).wf(),
            final(self).spec_len() == old(self).spec_len() + v@.len(),
            final(self).values() == old(self).values() + v@,
            final(self).validity() == old(self).validity() + repeat(true, v@.len()),
            final(self).has_bitmap() == old(self).has_bitmap(),
            final(self).byte_capacity() == grown_capacity(
                old(self).byte_capacity(),
                ((old(self).spec_len() + v@.len()) * T::Native::byte_width()) as int,
            ),
    {
        proof {
            self.lemma_wf();
        }
        match &mut self.bitmap_builder {
            Some(b) => {
                b.append_n(v.len(), true);
            },
            None => {},
        }
        self.values_builder.append_slice(v);
        proof {
            assert(self.validity() =~= old(self).validity() + repeat(true, v@.len()));
        }
        Ok(())
    }

    /// Appends the values of `values`, slot `i` valid iff `is_valid[i]`. The
    /// two must have one length: else nothing is appended. The bitmap comes
    /// into being if some slot is not valid.
    pub fn append_values(&mut self, values: &[T::Native], is_valid: &[bool]) -> (r: Result<
        (),
        ArrowError,
    >)
        requires
            old(self).wf(),
            old(self).spec_len() + values@.len() <= MAX_SLOTS,
        ensures
            final(self).wf(),
            r is Err <==> values@.len() != is_valid@.len(),
            r is Err ==> r->Err_0 is InvalidArgumentError && *final(self) == *old(self),
            r is Ok ==> {
                &&& final(self).spec_len() == old(self).spec_len() + values@.len()
                &&& final(self).values() == old(self).values() + values@
                &&& final(self).validity() == old(self).validity() + is_valid@
                &&& final(self).has_bitmap() == (old(self).has_bitmap() || has_false(is_valid@))
                &&& final(self).byte_capacity() == grown_capacity(
                    old(self).byte_capacity(),
                    ((old(self).spec_len() + values@.len()) * T::Native::byte_width()) as int,
                )
            },
    {
        if values.len() != is_valid.len() {
            return Err(
                ArrowError::InvalidArgumentError(
                    "Value and validity lengths must be equal".to_string(),
                ),
            );
        }
        proof {
            self.lemma_wf();
        }
        if any_false(is_valid) {
            self.materialize_bitmap_builder();
        }
        match &mut self.bitmap_builder {
            Some(b) => {
                b.append_slice(is_valid);
            },
            None => {
                proof {
                    assert(is_valid@ =~= repeat(true, is_valid@.len()));
                }
            },
        }
        self.values_builder.append_slice(values);
        proof {
            assert(self.validity() =~= old(self).validity() + is_valid@);
        }
        Ok(())
    }

    /// Builds the array and leaves the builder empty, with no capacity. The
    /// array carries a validity bitmap only if some slot is null.
    pub fn finish(&mut self) -> (r: PrimitiveArray<T>)
        requires
            old(self).wf(),
        ensures
            r@ == old(self).built(),
            r.wf(),
            r.spec_values() == old(self).values(),
            r@.validity() == old(self).validity(),
            final(self).reset_of(old(self)),
    {
        proof {
            self.lemma_wf();
            self.values_builder.lemma_wf();
        }
        let len: usize = self.values_builder.len();
        let ghost validity = self.validity();
        let null_bit_buffer: Option<Buffer> = match &mut self.bitmap_builder {
            Some(b) => {
                proof {
                    b.lemma_wf();
                }
                Some(b.finish())
            },
            None => {
                proof {
                    lemma_count_true_all(validity);
                }
                None
            },
        };
        let data = flat_data_of(
            T::data_type(),
            len,
            self.values_builder.finish(),
            null_bit_buffer,
            Ghost(validity),
            Ghost(spec_ceil8(len as nat)),
        );
        let r = PrimitiveArray::from_data(data);
        proof {
            lemma_flat_values(r, old(self).values());
            assert(self.validity() =~= Seq::<bool>::empty());
        }
        r
    }

    /// Builds a dictionary-encoded array whose keys are the slots of this
    /// builder and whose values are `values`, and leaves the builder empty,
    /// with no capacity. The array carries a validity bitmap only if some
    /// slot is null.
    pub fn finish_dict(&mut self, values: ArrayRef) -> (r: DictionaryArray<T>)
        requires
            old(self).wf(),
        ensures
            r@ == dictionary_array(
                T::spec_data_type(),
                values@,
                encode_all(old(self).values()),
                old(self).validity(),
                spec_ceil8(old(self).spec_len()),
            ),
            r.wf(),
            forall|i: int| 0 <= i < old(self).spec_len() ==> r.spec_key(i) == old(self).values()[i],
            r@.validity() == old(self).validity(),
            final(self).reset_of(old(self)),
    {
        proof {
            self.lemma_wf();
            self.values_builder.lemma_wf();
        }
        let len: usize = self.values_builder.len();
        let ghost validity = self.validity();
        let ghost held = self.values();
        let null_bit_buffer: Option<Buffer> = match &mut self.bitmap_builder {
            Some(b) => {
                proof {
                    b.lemma_wf();
                }
                Some(b.finish())
            },
            None => {
                proof {
                    lemma_count_true_all(validity);
                }
                None
            },
        };
        let data = dictionary_data_of(
            T::data_type(),
            len,
            self.values_builder.finish(),
            null_bit_buffer,
            values.into_data(),
            Ghost(validity),
            Ghost(spec_ceil8(len as nat)),
        );
        proof {
            assert(self.validity() =~= Seq::<bool>::empty());
            assert forall|i: int| 0 <= i < len implies from_bytes::<T::Native>(
                slot_bytes(data@.buffers[0], T::Native::byte_width(), 0 + i),
            ) == held[i] by {
                crate::native::lemma_encode_slot(held, i);
            }
        }
        DictionaryArray::from_data(data)
    }

    /// Brings the bitmap into being, with every slot so far valid.
    fn materialize_bitmap_builder(&mut self)
        requires
            old(self).wf(),
        ensures
            final(self).wf(),
            final(self).has_bitmap(),
            final(self).spec_len() == old(self).spec_len(),
            final(self).values() == old(self).values(),
            final(self).validity() == old(self).validity(),
            final(self).values_builder == old(self).values_builder,
    {
        if self.bitmap_builder.is_some() {
            return ;
        }
        proof {
            self.values_builder.lemma_wf();
        }
        let mut b = BooleanBufferBuilder::new(0);
        b.reserve(self.values_builder.capacity());
        b.append_n(self.values_builder.len(), true);
        proof {
            assert(b@ =~= repeat(true, self.values_builder.spec_len()));
        }
        self.bitmap_builder = Some(b);
    }
}

/// A builder whose bitmap has not come into being, as is the case as long
/// as no null was appended, builds an array with no validity bitmap and no
/// null.
pub proof fn lemma_no_null_no_bitmap<T: ArrowPrimitiveType>(builder: PrimitiveBuilder<T>)
    requires
        builder.wf(),
        !builder.has_bitmap(),
    ensures
        builder.built().null_bitmap is None,
        builder.built().null_count == 0,
        builder.built().len == builder.spec_len(),
{
    builder.lemma_wf();
    lemma_count_true_all(builder.validity());
}

/// A builder whose every slot is valid builds an array with no validity
/// bitmap, whether or not its bitmap has come into being.
pub proof fn lemma_all_valid_no_bitmap<T: ArrowPrimitiveType>(builder: PrimitiveBuilder<T>)
    requires
        builder.wf(),
        forall|i: int| 0 <= i < builder.validity().len() ==> builder.validity()[i],
    ensures
        builder.built().null_bitmap is None,
        builder.built().null_count == 0,
{
    builder.lemma_wf();
    lemma_count_true_all(builder.validity());
}

/// The number of nulls of the array built is the number of slots that are
/// not valid, and the array carries a bitmap iff there is one.
pub proof fn lemma_built_nulls<T: ArrowPrimitiveType>(builder: PrimitiveBuilder<T>)
    requires
        builder.wf(),
    ensures
        builder.built().null_count == builder.spec_len() - count_true(builder.validity()),
        builder.built().null_bitmap is Some <==> builder.built().null_count > 0,
        builder.built().validity() == builder.validity(),
{
    builder.lemma_wf();
    lemma_count_true_bounds(builder.validity());
    crate::array::lemma_flat_validity(
        T::spec_data_type(),
        encode_all(builder.values()),
        builder.validity(),
        spec_ceil8(builder.spec_len()),
    );
}

/// A builder left by `finish` builds what a new builder of no capacity
/// builds, and holds what it holds: appending to the one gives what
/// appending to the other gives.
pub proof fn lemma_reset_is_fresh<T: ArrowPrimitiveType>(
    reset: PrimitiveBuilder<T>,
    before: PrimitiveBuilder<T>,
    fresh: PrimitiveBuilder<T>,
)
    requires
        reset.reset_of(&before),
        fresh.wf(),
        fresh.spec_len() == 0,
        fresh.values() == Seq::<T::Native>::empty(),
        fresh.validity() == Seq::<bool>::empty(),
        fresh.byte_capacity() == spec_round64(0nat * T::Native::byte_width()),
    ensures
        reset.spec_len() == fresh.spec_len(),
        reset.values() == fresh.values(),
        reset.validity() == fresh.validity(),
        reset.byte_capacity() == fresh.byte_capacity(),
        reset.built() == fresh.built(),
{
    assert(0nat * T::Native::byte_width() == 0) by (nonlinear_arith);
}

impl<T: ArrowPrimitiveType> PrimitiveArray<T> {
    /// A builder of arrays of this type, with room for at least `capacity`
    /// values.
    pub fn builder(capacity: usize) -> (r: PrimitiveBuilder<T>)
        requires
            capacity <= MAX_SLOTS,
        ensures
            r.wf(),
            r.spec_len() == 0,
            r.values() == Seq::<T::Native>::empty(),
            r.validity() == Seq::<bool>::empty(),
            !r.has_bitmap(),
            r.byte_capacity() == spec_round64(capacity as nat * T::Native::byte_width()),
    {
        PrimitiveBuilder::<T>::new(capacity)
    }
}

/// Whether some entry of `bits` is `false`.
pub fn any_false(bits: &[bool]) -> (r: bool)
    ensures
        r == has_false(bits@),
{
    let mut i: usize = 0;
    while i < bits.len()
        invariant
            i <= bits@.len(),
            forall|k: int| 0 <= k < i ==> bits@[k],
        decreases bits@.len() - i,
    {
        if !bits[i] {
            return true;
        }
        i = i + 1;
    }
    false
}

pub type Int8Builder = PrimitiveBuilder<crate::types::Int8Type>;

pub type Int16Builder = PrimitiveBuilder<crate::types::Int16Type>;

pub type Int32Builder = PrimitiveBuilder<crate::types::Int32Type>;

pub type Int64Builder = PrimitiveBuilder<crate::types::Int64Type>;

pub type UInt8Builder = PrimitiveBuilder<crate::types::UInt8Type>;

pub type UInt16Builder = PrimitiveBuilder<crate::types::UInt16Type>;

pub type UInt32Builder = PrimitiveBuilder<crate::types::UInt32Type>;

pub type UInt64Builder = PrimitiveBuilder<crate::types::UInt64Type>;

pub type Float32Builder = PrimitiveBuilder<crate::types::Float32Type>;

pub type Float64Builder = PrimitiveBuilder<crate::types::Float64Type>;

pub type Date32Builder = PrimitiveBuilder<crate::types::Date32Type>;

pub type Date64Builder = PrimitiveBuilder<crate::types::Date64Type>;

pub type Time32SecondBuilder = PrimitiveBuilder<crate::types::Time32SecondType>;

pub type Time32MillisecondBuilder = PrimitiveBuilder<crate::types::Time32MillisecondType>;

pub type Time64MicrosecondBuilder = PrimitiveBuilder<crate::types::Time64MicrosecondType>;

pub type Time64NanosecondBuilder = PrimitiveBuilder<crate::types::Time64NanosecondType>;

pub type TimestampSecondBuilder = PrimitiveBuilder<crate::types::TimestampSecondType>;

pub type TimestampMillisecondBuilder = PrimitiveBuilder<crate::types::TimestampMillisecondType>;

pub type TimestampMicrosecondBuilder = PrimitiveBuilder<crate::types::TimestampMicrosecondType>;

pub type TimestampNanosecondBuilder = PrimitiveBuilder<crate::types::TimestampNanosecondType>;

pub type IntervalYearMonthBuilder = PrimitiveBuilder<crate::types::IntervalYearMonthType>;

pub type IntervalDayTimeBuilder = PrimitiveBuilder<crate::types::IntervalDayTimeType>;

pub type DurationSecondBuilder = PrimitiveBuilder<crate::types::DurationSecondType>;

pub type DurationMillisecondBuilder = PrimitiveBuilder<crate::types::DurationMillisecondType>;

pub type DurationMicrosecondBuilder = PrimitiveBuilder<crate::types::DurationMicrosecondType>;

pub type DurationNanosecondBuilder = PrimitiveBuilder<crate::types::DurationNanosecondType>;

} // verus!
