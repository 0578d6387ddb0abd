//! Builder for arrays of text of any length: a list builder over a builder
//! of bytes, fed with UTF-8.

use crate::array::ArrayRef;
use crate::array_builder::ArrayBuilder;
use crate::array_data::ArrayDataView;
use crate::binary_array::{string_type, GenericStringArray};
use crate::binary_builder::{
    delimits, lemma_delimits, lemma_delimits_push, lemma_var_parts, offset_values, slot_of,
    var_array,
};
use crate::bit_util::{lemma_count_true_all, spec_ceil8};
use crate::boolean_builder::spec_max;
use crate::buffer_builder::MAX_SLOTS;
use crate::error::ArrowError;
use crate::list_builder::GenericListBuilder;
use crate::native::{encode_all, lemma_zero_bytes, zero_value, ArrowNativeType, OffsetSizeTrait};
use crate::primitive_builder::PrimitiveBuilder;
use crate::types::UInt8Type;
use vstd::prelude::*;
use vstd::utf8::{encode_utf8, encode_utf8_valid_utf8, valid_utf8};

verus! {

/// Whether every slot that `offsets` delimit in `data` holds valid UTF-8.
pub open spec fn slots_are_text(data: Seq<u8>, offsets: Seq<int>) -> bool {
    forall|i: int| 0 <= i < offsets.len() - 1 ==> valid_utf8(#[trigger] slot_of(data, offsets, i))
}

/// Array builder for text of any length.
#[derive(Debug)]
pub struct GenericStringBuilder<OffsetSize: OffsetSizeTrait> {
    builder: GenericListBuilder<OffsetSize, PrimitiveBuilder<UInt8Type>>,
}

pub type StringBuilder = GenericStringBuilder<i32>;

pub type LargeStringBuilder = GenericStringBuilder<i64>;

impl<OffsetSize: OffsetSizeTrait> ArrayBuilder for GenericStringBuilder<OffsetSize> {
    closed spec fn wf(&self) -> bool {
        &&& self.builder.wf()
        &&& !self.builder.spec_values().has_bitmap()
        &&& delimits(self.offsets(), self.data().len() as int)
        &&& self.offsets().last() == self.data().len()
        &&& self.data().len() <= OffsetSize::spec_max()
        &&& slots_are_text(self.data(), self.offsets())
    }

    closed spec fn spec_len(&self) -> nat {
        self.builder.spec_len()
    }

    open spec fn can_finish(&self) -> bool {
        true
    }

    open spec fn built(&self) -> ArrayDataView {
        var_array(
            string_type(OffsetSize::spec_is_large()),
            encode_all(self.spec_offsets()),
            self.data(),
            self.validity(),
            self.byte_len(),
        )
    }

    /// Empty, the offsets a single zero.
    open spec fn reset_of(&self, before: &Self) -> bool {
        &&& self.wf()
        &&& self.spec_len() == 0
        &&& self.data() == Seq::<u8>::empty()
        &&& self.offsets() == seq![0int]
        &&& self.validity() == Seq::<bool>::empty()
        &&& self.byte_len() == 0
    }

    proof fn lemma_built_len(&self) {
        self.lemma_wf();
    }

    fn len(&self) -> (r: usize) {
        self.builder.len()
    }

    fn is_empty(&self) -> (r: bool) {
        self.builder.is_empty()
    }

    fn finish(&mut self) -> (r: ArrayRef) {
        GenericStringBuilder::finish(self).into_ref()
    }
}

/// Slots that lie within `data` are the same in `data` extended.
proof fn lemma_slots_extended(data: Seq<u8>, more: Seq<u8>, offsets: Seq<int>)
    requires
        delimits(offsets, data.len() as int),
        slots_are_text(data, offsets),
        valid_utf8(more),
        offsets.last() == data.len(),
    ensures
        slots_are_text(data + more, offsets.push((data + more).len() as int)),
{
    let next = offsets.push((data + more).len() as int);
    assert forall|i: int| 0 <= i < next.len() - 1 implies valid_utf8(
        #[trigger] slot_of(data + more, next, i),
    ) by {
        lemma_delimits(offsets, data.len() as int, i);
        if i < offsets.len() - 1 {
            lemma_delimits(offsets, data.len() as int, i + 1);
            assert(slot_of(data + more, next, i) =~= slot_of(data, offsets, i));
        } else {
            assert(slot_of(data + more, next, i) =~= more);
        }
    }
}

impl<OffsetSize: OffsetSizeTrait> GenericStringBuilder<OffsetSize> {
    /// The UTF-8 bytes appended so far, one text after the other.
    pub closed spec fn data(&self) -> Seq<u8> {
        self.builder.spec_values().values()
    }

    /// The offsets: a zero, then for each slot the length of the data when
    /// the slot was closed.
    pub closed spec fn spec_offsets(&self) -> Seq<OffsetSize> {
        self.builder.offsets()
    }

    /// The offsets as numbers.
    pub open spec fn offsets(&self) -> Seq<int> {
        offset_values(self.spec_offsets())
    }

    /// Which slots hold a value.
    pub closed spec fn validity(&self) -> Seq<bool> {
        self.builder.validity()
    }

    /// The number of bytes that the bitmap holds.
    pub closed spec fn byte_len(&self) -> nat {
        self.builder.byte_len()
    }

    /// What well-formedness says of the public state.
    pub proof fn lemma_wf(&self)
        requires
            self.wf(),
        ensures
            self.offsets().len() == self.spec_len() + 1,
            self.validity().len() == self.spec_len(),
            self.spec_len() < MAX_SLOTS,
            self.data().len() <= MAX_SLOTS,
            self.data().len() <= OffsetSize::spec_max(),
            delimits(self.offsets(), self.data().len() as int),
            self.offsets().last() == self.data().len(),
            slots_are_text(self.data(), self.offsets()),
            spec_ceil8(self.spec_len()) <= self.byte_len(),
    {
        self.builder.lemma_wf();
        self.builder.spec_values().lemma_wf();
    }

    /// A builder with room for `capacity` bytes of text.
    pub fn new(capacity: usize) -> (r: Self)
        requires
            capacity <= MAX_SLOTS,
        ensures
            r.wf(),
            r.spec_len() == 0,
            r.data() == Seq::<u8>::empty(),
            r.offsets() == seq![0int],
            r.spec_offsets() == seq![zero_value::<OffsetSize>()],
            r.validity() == Seq::<bool>::empty(),
            r.byte_len() == 0,
    {
        let values_builder = PrimitiveBuilder::<UInt8Type>::new(capacity);
        let r = Self { builder: GenericListBuilder::new(values_builder) };
        proof {
            lemma_zero_bytes::<OffsetSize>();
            assert(r.offsets() =~= seq![0int]);
            OffsetSize::lemma_offset(zero_value::<OffsetSize>());
        }
        r
    }

    /// A builder with room for `item_capacity` texts of `data_capacity`
    /// bytes in all.
    pub fn with_capacity(item_capacity: usize, data_capacity: usize) -> (r: Self)
        requires
            item_capacity < MAX_SLOTS,
            data_capacity <= MAX_SLOTS,
        ensures
            r.wf(),
            r.spec_len() == 0,
            r.data() == Seq::<u8>::empty(),
            r.offsets() == seq![0int],
            r.spec_offsets() == seq![zero_value::<OffsetSize>()],
            r.validity() == Seq::<bool>::empty(),
            r.byte_len() == spec_ceil8(item_capacity as nat),
    {
        let values_builder = PrimitiveBuilder::<UInt8Type>::new(data_capacity);
        let r = Self { builder: GenericListBuilder::with_capacity(values_builder, item_capacity) };
        proof {
            lemma_zero_bytes::<OffsetSize>();
            assert(r.offsets() =~= seq![0int]);
            OffsetSize::lemma_offset(zero_value::<OffsetSize>());
        }
        r
    }

    /// Appends the UTF-8 bytes of `value` and closes the slot.
    pub fn append_value(&mut self, value: &str) -> (r: Result<(), ArrowError>)
        requires
            old(self).wf(),
            old(self).spec_len() + 1 < MAX_SLOTS,
            old(self).data().len() + encode_utf8(value@).len() <= MAX_SLOTS,
            old(self).data().len() + encode_utf8(value@).len() <= OffsetSize::spec_max(),
        ensures
            r is Ok,
            final(self).wf(),
            final(self).spec_len() == old(self).spec_len() + 1,
            final(self).data() == old(self).data() + encode_utf8(value@),
            final(self).offsets() == old(self).offsets().push(final(self).data().len() as int),
            final(self).validity() == old(self).validity().push(true),
            final(self).byte_len() == spec_max(
                old(self).byte_len(),
                spec_ceil8(final(self).spec_len()),
            ),
    {
        proof {
            self.lemma_wf();
            self.builder.spec_values().lemma_wf();
            encode_utf8_valid_utf8(value@);
            lemma_delimits_push(
                self.offsets(),
                self.data().len() as int,
                (self.data().len() + encode_utf8(value@).len()) as int,
            );
            lemma_slots_extended(self.data(), encode_utf8(value@), self.offsets());
        }
        let _ = self.builder.values().append_slice(value.as_bytes());
        let _ = self.builder.append(true);
        proof {
            self.builder.spec_values().lemma_wf();
            assert(self.offsets().drop_last() =~= old(self).offsets());
            assert(self.offsets() =~= old(self).offsets().push(self.data().len() as int));
        }
        Ok(())
    }

    /// Closes a slot that holds the empty text; it is null unless
    /// `is_valid`.
    pub fn append(&mut self, is_valid: bool) -> (r: Result<(), ArrowError>)
        requires
            old(self).wf(),
            old(self).spec_len() + 1 < MAX_SLOTS,
        ensures
            r is Ok,
            final(self).wf(),
            final(self).spec_len() == old(self).spec_len() + 1,
            final(self).data() == old(self).data(),
            final(self).offsets() == old(self).offsets().push(old(self).data().len() as int),
            final(self).validity() == old(self).validity().push(is_valid),
            final(self).byte_len() == spec_max(
                old(self).byte_len(),
                spec_ceil8(final(self).spec_len()),
            ),
    {
        proof {
            self.lemma_wf();
            self.builder.spec_values().lemma_wf();
            lemma_delimits_push(self.offsets(), self.data().len() as int, self.data().len() as int);
            assert(valid_utf8(Seq::<u8>::empty()));
            lemma_slots_extended(self.data(), Seq::<u8>::empty(), self.offsets());
            assert(self.data() + Seq::<u8>::empty() =~= self.data());
        }
        let r = self.builder.append(is_valid);
        proof {
            self.builder.spec_values().lemma_wf();
            assert(self.offsets().drop_last() =~= old(self).offsets());
            assert(self.offsets() =~= old(self).offsets().push(self.data().len() as int));
        }
        r
    }

    /// Closes a slot as null.
    pub fn append_null(&mut self) -> (r: Result<(), ArrowError>)
        requires
            old(self).wf(),
            old(self).spec_len() + 1 < MAX_SLOTS,
        ensures
            r is Ok,
            final(self).wf(),
            final(self).spec_len() == old(self).spec_len() + 1,
            final(self).data() == old(self).data(),
            final(self).offsets() == old(self).offsets().push(old(self).data().len() as int),
            final(self).validity() == old(self).validity().push(false),
            final(self).byte_len() == spec_max(
                old(self).byte_len(),
                spec_ceil8(final(self).spec_len()),
            ),
    {
        self.append(false)
    }

    /// Builds the array and leaves the builder empty. The array always
    /// carries its validity bitmap.
    pub fn finish(&mut self) -> (r: GenericStringArray<OffsetSize>)
        requires
            old(self).wf(),
        ensures
            r@ == old(self).built(),
            r.wf(),
            forall|i: int|
                0 <= i < old(self).spec_len() ==> #[trigger] r.spec_value_bytes(i) == slot_of(
                    old(self).data(),
                    old(self).offsets(),
                    i,
                ),
            final(self).reset_of(old(self)),
    {
        proof {
            self.lemma_wf();
            self.builder.lemma_wf();
            self.builder.spec_values().lemma_wf();
            lemma_count_true_all(self.builder.spec_values().validity());
            lemma_var_parts::<OffsetSize>(
                self.builder.built(),
                string_type(OffsetSize::spec_is_large()),
                self.spec_offsets(),
                self.data(),
                self.validity(),
                self.byte_len(),
            );
        }
        let list = self.builder.finish();
        proof {
            self.builder.spec_values().lemma_wf();
            assert(self.builder.spec_values().values() =~= Seq::<u8>::empty());
            lemma_zero_bytes::<OffsetSize>();
            assert(self.offsets() =~= seq![0int]);
            assert(self.data() =~= Seq::<u8>::empty());
            OffsetSize::lemma_offset(zero_value::<OffsetSize>());
        }
        GenericStringArray::from_list(list)
    }
}

/// The number of UTF-8 bytes of the first `n` texts of `values`; a missing
/// text counts nothing.
pub open spec fn text_len(values: Seq<Option<&str>>, n: nat) -> nat
    decreases n,
{
    if n == 0 {
        0
    } else {
        text_len(values, (n - 1) as nat) + match values[n - 1] {
            Some(s) => encode_utf8(s@).len(),
            None => 0nat,
        }
    }
}

/// The texts grow in length with their number.
proof fn lemma_text_len(values: Seq<Option<&str>>, n: nat, m: nat)
    requires
        n <= m,
    ensures
        text_len(values, n) <= text_len(values, m),
    decreases m,
{
    if n < m {
        lemma_text_len(values, n, (m - 1) as nat);
    }
}

impl<OffsetSize: OffsetSizeTrait> GenericStringArray<OffsetSize> {
    /// An array of the given texts, `None` for a null slot. A null slot is
    /// empty, and the bitmap is always there.
    pub fn from_options(values: Vec<Option<&str>>) -> (r: Self)
        requires
            values@.len() + 1 < MAX_SLOTS,
            text_len(values@, values@.len()) <= MAX_SLOTS,
            text_len(values@, values@.len()) <= OffsetSize::spec_max(),
        ensures
            r.wf(),
            r@.len == values@.len(),
            r@.offset == 0,
            r@.data_type == string_type(OffsetSize::spec_is_large()),
            r@.validity() == Seq::new(values@.len(), |i: int| values@[i] is Some),
            forall|i: int|
                0 <= i < values@.len() ==> #[trigger] r.spec_value_bytes(i) == match values@[i] {
                    Some(s) => encode_utf8(s@),
                    None => Seq::<u8>::empty(),
                },
    {
        let n: usize = values.len();
        let mut builder = GenericStringBuilder::<OffsetSize>::new(0);
        let ghost wanted = Seq::new(values@.len(), |i: int| values@[i] is Some);
        let mut i: usize = 0;
        while i < n
            invariant
                i <= n,
                n == values@.len(),
                n + 1 < MAX_SLOTS,
                text_len(values@, n as nat) <= MAX_SLOTS,
                text_len(values@, n as nat) <= OffsetSize::spec_max(),
                builder.wf(),
                builder.spec_len() == i,
                builder.data().len() == text_len(values@, i as nat),
                builder.offsets().len() == i + 1,
                builder.validity() == wanted.take(i as int),
                wanted == Seq::new(values@.len(), |i: int| values@[i] is Some),
                forall|k: int|
                    0 <= k < i ==> #[trigger] slot_of(builder.data(), builder.offsets(), k)
                        == match values@[k] {
                        Some(s) => encode_utf8(s@),
                        None => Seq::<u8>::empty(),
                    },
            decreases n - i,
        {
            let ghost before = builder;
            proof {
                lemma_text_len(values@, (i + 1) as nat, n as nat);
                builder.lemma_wf();
            }
            match values[i] {
                Some(s) => {
                    let _ = builder.append_value(s);
                },
                None => {
                    let _ = builder.append_null();
                },
            }
            proof {
                builder.lemma_wf();
                assert(builder.validity() =~= wanted.take(i + 1));
                assert forall|k: int| 0 <= k < i + 1 implies #[trigger] slot_of(
                    builder.data(),
                    builder.offsets(),
                    k,
                ) == match values@[k] {
                    Some(s) => encode_utf8(s@),
                    None => Seq::<u8>::empty(),
                } by {
                    if k < i {
                        lemma_delimits(before.offsets(), before.data().len() as int, k);
                        lemma_delimits(before.offsets(), before.data().len() as int, k + 1);
                        assert(slot_of(builder.data(), builder.offsets(), k) =~= slot_of(
                            before.data(),
                            before.offsets(),
                            k,
                        ));
                    } else {
                        match values@[k] {
                            Some(s) => {
                                assert(slot_of(builder.data(), builder.offsets(), k)
                                    =~= encode_utf8(s@));
                            },
                            None => {
                                assert(slot_of(builder.data(), builder.offsets(), k)
                                    =~= Seq::<u8>::empty());
                            },
                        }
                    }
                }
            }
            i = i + 1;
        }
        proof {
            assert(wanted.take(n as int) =~= wanted);
            builder.lemma_wf();
        }
        let ghost validity = builder.validity();
        let ghost byte_len = builder.byte_len();
        let r = builder.finish();
        proof {
            crate::array::lemma_validity_held(r@, validity, byte_len);
        }
        r
    }
}

} // verus!
