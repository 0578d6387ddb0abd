//! Builder for arrays of booleans: the values and the validity are both
//! bit-packed, and both are there from the start.

use crate::array::{flat_array, flat_data_of, ArrayRef, BooleanArray};
use crate::array_builder::ArrayBuilder;
use crate::array_data::ArrayDataView;
use crate::bit_util::{pack_bits, spec_ceil8, spec_round64, MAX_BITS};
use crate::buffer::{grown_capacity, Buffer};
use crate::buffer_builder::{repeat, BooleanBufferBuilder};
use crate::datatypes::{DataType, DataTypeView};
use crate::error::ArrowError;
use vstd::prelude::*;

verus! {

/// The larger of `a` and `b`.
pub open spec fn spec_max(a: nat, b: nat) -> nat {
    if a >= b {
        a
    } else {
        b
    }
}

/// Array builder for booleans.
#[derive(Debug)]
pub struct BooleanBuilder {
    values_builder: BooleanBufferBuilder,
    bitmap_builder: BooleanBufferBuilder,
}

impl ArrayBuilder for BooleanBuilder {
    closed spec fn wf(&self) -> bool {
        &&& self.values_builder.wf()
        &&& self.bitmap_builder.wf()
        &&& self.values_builder.spec_len() == self.bitmap_builder.spec_len()
        &&& self.values_builder.bytes().len() == self.bitmap_builder.bytes().len()
    }

    closed spec fn spec_len(&self) -> nat {
        self.values_builder.spec_len()
    }

    open spec fn can_finish(&self) -> bool {
        true
    }

    open spec fn built(&self) -> ArrayDataView {
        flat_array(
            DataTypeView::Boolean,
            pack_bits(self.values(), self.byte_len()),
            self.validity(),
            self.byte_len(),
        )
    }

    /// Empty, with no bytes and no capacity.
    open spec fn reset_of(&self, before: &Self) -> bool {
        &&& self.wf()
        &&& self.spec_len() == 0
        &&& self.values() == Seq::<bool>::empty()
        &&& self.validity() == Seq::<bool>::empty()
        &&& self.byte_len() == 0
        &&& self.byte_capacity() == 0
    }

    proof fn lemma_built_len(&self) {
        self.lemma_wf();
    }

    fn len(&self) -> (r: usize) {
        self.values_builder.len()
    }

    fn is_empty(&self) -> (r: bool) {
        self.values_builder.is_empty()
    }

    fn finish(&mut self) -> (r: ArrayRef) {
        BooleanBuilder::finish(self).into_ref()
    }
}

impl BooleanBuilder {
    /// The values of the slots; a null slot holds `false`.
    pub closed spec fn values(&self) -> Seq<bool> {
        self.values_builder@
    }

    /// Which slots hold a value.
    pub closed spec fn validity(&self) -> Seq<bool> {
        self.bitmap_builder@
    }

    /// The number of bytes that each of the two bit-packed regions holds.
    pub closed spec fn byte_len(&self) -> nat {
        self.values_builder.bytes().len()
    }

    /// The capacity of the values' byte region.
    pub closed spec fn byte_capacity(&self) -> nat {
        self.values_builder.byte_capacity()
    }

    /// What well-formedness says of the public state.
    pub proof fn lemma_wf(&self)
        requires
            self.wf(),
        ensures
            self.values().len() == self.spec_len(),
            self.validity().len() == self.spec_len(),
            self.spec_len() <= MAX_BITS,
            spec_ceil8(self.spec_len()) <= self.byte_len(),
            self.byte_capacity() <= usize::MAX / 8,
    {
        self.values_builder.lemma_wf();
        self.bitmap_builder.lemma_wf();
    }

    /// A builder with room for at least `capacity` booleans.
    pub fn new(capacity: usize) -> (r: Self)
        requires
            capacity <= MAX_BITS,
        ensures
            r.wf(),
            r.spec_len() == 0,
            r.values() == Seq::<bool>::empty(),
            r.validity() == Seq::<bool>::empty(),
            r.byte_len() == spec_ceil8(capacity as nat),
            r.byte_capacity() == spec_round64(spec_ceil8(capacity as nat)),
    {
        Self {
            values_builder: BooleanBufferBuilder::new(capacity),
            bitmap_builder: BooleanBufferBuilder::new(capacity),
        }
    }

    /// The number of booleans that fit the values' byte region as it is.
    pub fn capacity(&self) -> (r: usize)
        requires
            self.wf(),
        ensures
            r == self.byte_capacity() * 8,
    {
        self.values_builder.capacity()
    }

    /// Appends a value.
    pub fn append_value(&mut self, v: bool) -> (r: Result<(), ArrowError>)
        requires
            old(self).wf(),
            old(self).spec_len() < MAX_BITS,
        ensures
            r is Ok,
            final(self).wf(),
            final(self).spec_len() == old(self).spec_len() + 1,
            final(self).values() == old(self).values().push(v),
            final(self).validity() == old(self).validity().push(true),
            final(self).byte_len() == spec_max(
                old(self).byte_len(),
                spec_ceil8(final(self).spec_len()),
            ),
            final(self).byte_capacity() == grown_capacity(
                old(self).byte_capacity(),
                spec_ceil8(final(self).spec_len()) as int,
            ),
    {
        self.bitmap_builder.append(true);
        self.values_builder.append(v);
        Ok(())
    }

    /// Appends a null slot; its value is `false`.
    pub fn append_null(&mut self) -> (r: Result<(), ArrowError>)
        requires
            old(self).wf(),
            old(self).spec_len() < MAX_BITS,
        ensures
            r is Ok,
            final(self).wf(),
            final(self).spec_len() == old(self).spec_len() + 1,
            final(self).values() == old(self).values().push(false),
            final(self).validity() == old(self).validity().push(false),
            final(self).byte_len() == spec_max(
                old(self).byte_len(),
                spec_ceil8(final(self).spec_len()),
            ),
            final(self).byte_capacity() == grown_capacity(
                old(self).byte_capacity(),
                spec_ceil8(final(self).spec_len()) as int,
            ),
    {
        self.bitmap_builder.append(false);
        self.values_builder.advance(1);
        proof {
            assert(repeat(false, 1) =~= seq![false]);
            assert(self.values() =~= old(self).values().push(false));
        }
        Ok(())
    }

    /// Appends a value, or a null slot for `None`.
    pub fn append_option(&mut self, v: Option<bool>) -> (r: Result<(), ArrowError>)
        requires
            old(self).wf(),
            old(self).spec_len() < MAX_BITS,
        ensures
            r is Ok,
            final(self).wf(),
            final(self).spec_len() == old(self).spec_len() + 1,
            final(self).values() == old(self).values().push(v == Some(true)),
            final(self).validity() == old(self).validity().push(v is Some),
            final(self).byte_len() == spec_max(
                old(self).byte_len(),
                spec_ceil8(final(self).spec_len()),
            ),
            final(self).byte_capacity() == grown_capacity(
                old(self).byte_capacity(),
                spec_ceil8(final(self).spec_len()) as int,
            ),
    {
        match v {
            None => self.append_null(),
            Some(v) => self.append_value(v),
        }
    }

    /// Appends the values of `v`, all of them valid.
    pub fn append_slice(&mut self, v: &[bool]) -> (r: Result<(), ArrowError>)
        requires
            old(self).wf(),
            old(self).spec_len() + v@.len() <= MAX_BITS,
        ensures
            r is Ok,
            final(self).wf(),
            final(self).spec_len() == old(self).spec_len() + v@.len(),
            final(self).values() == old(self).values() + v@,
            final(self).validity() == old(self).validity() + repeat(true, v@.len()),
            final(self).byte_len() == spec_max(
                old(self).byte_len(),
                spec_ceil8(final(self).spec_len()),
            ),
            final(self).byte_capacity() == grown_capacity(
                old(self).byte_capacity(),
                spec_ceil8(final(self).spec_len()) as int,
            ),
    {
        self.bitmap_builder.append_n(v.len(), true);
        self.values_builder.append_slice(v);
        Ok(())
    }

    /// Appends the values of `values`, slot `i` valid iff `is_valid[i]`. The
    /// two must have one length: else nothing is appended.
    pub fn append_values(&mut self, values: &[bool], is_valid: &[bool]) -> (r: Result<
        (),
        ArrowError,
    >)
        requires
            old(self).wf(),
            old(self).spec_len() + values@.len() <= MAX_BITS,
        ensures
            final(self).wf(),
            r is Err <==> values@.len() != is_valid@.len(),
            r is Err ==> r->Err_0 is InvalidArgumentError && *final(self) == *old(self),
            r is Ok ==> {
                &&& final(self).spec_len() == old(self).spec_len() + values@.len()
                &&& final(self).values() == old(self).values() + values@
                &&& final(self).validity() == old(self).validity() + is_valid@
                &&& final(self).byte_len() == spec_max(
                    old(self).byte_len(),
                    spec_ceil8(final(self).spec_len()),
                )
                &&& final(self).byte_capacity() == grown_capacity(
                    old(self).byte_capacity(),
                    spec_ceil8(final(self).spec_len()) as int,
                )
            },
    {
        if values.len() != is_valid.len() {
            return Err(
                ArrowError::InvalidArgumentError(
                    "Value and validity lengths must be equal".to_string(),
                ),
            );
        }
        self.bitmap_builder.append_slice(is_valid);
        self.values_builder.append_slice(values);
        Ok(())
    }

    /// Builds the array and leaves the builder empty, with no capacity. The
    /// array carries a validity bitmap only if some slot is null.
    pub fn finish(&mut self) -> (r: BooleanArray)
        requires
            old(self).wf(),
        ensures
            r@ == old(self).built(),
            r.wf(),
            forall|i: int| 0 <= i < old(self).spec_len() ==> r.spec_value(i) == old(self).values()[i],
            r@.validity() == old(self).validity(),
            final(self).reset_of(old(self)),
    {
        proof {
            self.lemma_wf();
            self.values_builder.lemma_wf();
            self.bitmap_builder.lemma_wf();
        }
        let len: usize = self.values_builder.len();
        let ghost validity = self.validity();
        let ghost byte_len = self.byte_len();
        let null_bit_buffer: Buffer = self.bitmap_builder.finish();
        let data = flat_data_of(
            DataType::Boolean,
            len,
            self.values_builder.finish(),
            Some(null_bit_buffer),
            Ghost(validity),
            Ghost(byte_len),
        );
        let r = BooleanArray::from_data(data);
        r
    }
}

impl BooleanArray {
    /// A builder of boolean arrays, with room for at least `capacity`
    /// booleans.
    pub fn builder(capacity: usize) -> (r: BooleanBuilder)
        requires
            capacity <= MAX_BITS,
        ensures
            r.wf(),
            r.spec_len() == 0,
            r.values() == Seq::<bool>::empty(),
            r.validity() == Seq::<bool>::empty(),
            r.byte_len() == spec_ceil8(capacity as nat),
            r.byte_capacity() == spec_round64(spec_ceil8(capacity as nat)),
    {
        BooleanBuilder::new(capacity)
    }
}

} // verus!
