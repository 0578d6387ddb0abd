//! Builders held by kind rather than by type: a builder of any of the kinds
//! that a struct can have as a field, the struct builder itself, and the
//! factory that makes a builder for a declared type.

use crate::array::{flat_array, lemma_count_nulls_held, ArrayRef};
use crate::array_builder::ArrayBuilder;
use crate::array_data::{
    children_view, lemma_children_view, lemma_children_view_empty, ArrayData, ArrayDataView,
};
use crate::binary_builder::{var_array, GenericBinaryBuilder};
use crate::bit_util::{
    count_true, lemma_count_held, lemma_count_true_bounds, lemma_pack_bits, pack_bits, spec_ceil8,
    spec_round64,
};
use crate::boolean_builder::BooleanBuilder;
use crate::buffer_builder::{MAX_SLOTS, BooleanBufferBuilder};
use crate::datatypes::{
    clone_fields, fields_view, DataType, DataTypeView, Field, FieldView, IntervalUnit, TimeUnit,
};
use crate::error::ArrowError;
use crate::fixed_binary_builder::{fixed_array, DecimalBuilder, FixedSizeBinaryBuilder};
use crate::native::{encode_all, zero_value};
use crate::primitive_builder::PrimitiveBuilder;
use crate::string_builder::GenericStringBuilder;
use crate::struct_array::StructArray;
use crate::types::{
    ArrowPrimitiveType, Date32Type, Date64Type, DurationMicrosecondType, DurationMillisecondType,
    DurationNanosecondType, DurationSecondType, Float32Type, Float64Type, Int16Type, Int32Type,
    Int64Type, Int8Type, IntervalDayTimeType, IntervalYearMonthType, Time32MillisecondType,
    Time32SecondType, Time64MicrosecondType, Time64NanosecondType, TimestampMicrosecondType,
    TimestampMillisecondType, TimestampNanosecondType, TimestampSecondType, UInt16Type, UInt32Type,
    UInt64Type, UInt8Type,
};
use vstd::prelude::*;

verus! {

/// A builder of one of the kinds that can build a field of a struct.
#[derive(Debug)]
pub enum AnyBuilder {
    Boolean(BooleanBuilder),
    Int8(PrimitiveBuilder<Int8Type>),
    Int16(PrimitiveBuilder<Int16Type>),
    Int32(PrimitiveBuilder<Int32Type>),
    Int64(PrimitiveBuilder<Int64Type>),
    UInt8(PrimitiveBuilder<UInt8Type>),
    UInt16(PrimitiveBuilder<UInt16Type>),
    UInt32(PrimitiveBuilder<UInt32Type>),
    UInt64(PrimitiveBuilder<UInt64Type>),
    Float32(PrimitiveBuilder<Float32Type>),
    Float64(PrimitiveBuilder<Float64Type>),
    Date32(PrimitiveBuilder<Date32Type>),
    Date64(PrimitiveBuilder<Date64Type>),
    Time32Second(PrimitiveBuilder<Time32SecondType>),
    Time32Millisecond(PrimitiveBuilder<Time32MillisecondType>),
    Time64Microsecond(PrimitiveBuilder<Time64MicrosecondType>),
    Time64Nanosecond(PrimitiveBuilder<Time64NanosecondType>),
    TimestampSecond(PrimitiveBuilder<TimestampSecondType>),
    TimestampMillisecond(PrimitiveBuilder<TimestampMillisecondType>),
    TimestampMicrosecond(PrimitiveBuilder<TimestampMicrosecondType>),
    TimestampNanosecond(PrimitiveBuilder<TimestampNanosecondType>),
    IntervalYearMonth(PrimitiveBuilder<IntervalYearMonthType>),
    IntervalDayTime(PrimitiveBuilder<IntervalDayTimeType>),
    DurationSecond(PrimitiveBuilder<DurationSecondType>),
    DurationMillisecond(PrimitiveBuilder<DurationMillisecondType>),
    DurationMicrosecond(PrimitiveBuilder<DurationMicrosecondType>),
    DurationNanosecond(PrimitiveBuilder<DurationNanosecondType>),
    Binary(GenericBinaryBuilder<i32>),
    FixedSizeBinary(FixedSizeBinaryBuilder),
    Decimal(DecimalBuilder),
    Utf8(GenericStringBuilder<i32>),
    Struct(StructBuilder),
}

/// Array builder for structs. The field builders are held by kind; whoever
/// appends must append one slot to every field builder for each slot of the
/// struct: the builder does not check it.
#[derive(Debug)]
pub struct StructBuilder {
    fields: Vec<Field>,
    field_builders: Vec<AnyBuilder>,
    bitmap_builder: BooleanBufferBuilder,
    len: usize,
}

/// Whether the parts of `b` agree with each other.
pub open spec fn any_wf(b: AnyBuilder) -> bool
    decreases b,
{
    match b {
        AnyBuilder::Boolean(x) => x.wf(),
        AnyBuilder::Int8(x) => x.wf(),
        AnyBuilder::Int16(x) => x.wf(),
        AnyBuilder::Int32(x) => x.wf(),
        AnyBuilder::Int64(x) => x.wf(),
        AnyBuilder::UInt8(x) => x.wf(),
        AnyBuilder::UInt16(x) => x.wf(),
        AnyBuilder::UInt32(x) => x.wf(),
        AnyBuilder::UInt64(x) => x.wf(),
        AnyBuilder::Float32(x) => x.wf(),
        AnyBuilder::Float64(x) => x.wf(),
        AnyBuilder::Date32(x) => x.wf(),
        AnyBuilder::Date64(x) => x.wf(),
        AnyBuilder::Time32Second(x) => x.wf(),
        AnyBuilder::Time32Millisecond(x) => x.wf(),
        AnyBuilder::Time64Microsecond(x) => x.wf(),
        AnyBuilder::Time64Nanosecond(x) => x.wf(),
        AnyBuilder::TimestampSecond(x) => x.wf(),
        AnyBuilder::TimestampMillisecond(x) => x.wf(),
        AnyBuilder::TimestampMicrosecond(x) => x.wf(),
        AnyBuilder::TimestampNanosecond(x) => x.wf(),
        AnyBuilder::IntervalYearMonth(x) => x.wf(),
        AnyBuilder::IntervalDayTime(x) => x.wf(),
        AnyBuilder::DurationSecond(x) => x.wf(),
        AnyBuilder::DurationMillisecond(x) => x.wf(),
        AnyBuilder::DurationMicrosecond(x) => x.wf(),
        AnyBuilder::DurationNanosecond(x) => x.wf(),
        AnyBuilder::Binary(x) => x.wf(),
        AnyBuilder::FixedSizeBinary(x) => x.wf(),
        AnyBuilder::Decimal(x) => x.wf(),
        AnyBuilder::Utf8(x) => x.wf(),
        AnyBuilder::Struct(s) => struct_wf(s),
    }
}

/// The number of slots appended to `b`.
pub open spec fn any_len(b: AnyBuilder) -> nat
    decreases b,
{
    match b {
        AnyBuilder::Boolean(x) => x.spec_len(),
        AnyBuilder::Int8(x) => x.spec_len(),
        AnyBuilder::Int16(x) => x.spec_len(),
        AnyBuilder::Int32(x) => x.spec_len(),
        AnyBuilder::Int64(x) => x.spec_len(),
        AnyBuilder::UInt8(x) => x.spec_len(),
        AnyBuilder::UInt16(x) => x.spec_len(),
        AnyBuilder::UInt32(x) => x.spec_len(),
        AnyBuilder::UInt64(x) => x.spec_len(),
        AnyBuilder::Float32(x) => x.spec_len(),
        AnyBuilder::Float64(x) => x.spec_len(),
        AnyBuilder::Date32(x) => x.spec_len(),
        AnyBuilder::Date64(x) => x.spec_len(),
        AnyBuilder::Time32Second(x) => x.spec_len(),
        AnyBuilder::Time32Millisecond(x) => x.spec_len(),
        AnyBuilder::Time64Microsecond(x) => x.spec_len(),
        AnyBuilder::Time64Nanosecond(x) => x.spec_len(),
        AnyBuilder::TimestampSecond(x) => x.spec_len(),
        AnyBuilder::TimestampMillisecond(x) => x.spec_len(),
        AnyBuilder::TimestampMicrosecond(x) => x.spec_len(),
        AnyBuilder::TimestampNanosecond(x) => x.spec_len(),
        AnyBuilder::IntervalYearMonth(x) => x.spec_len(),
        AnyBuilder::IntervalDayTime(x) => x.spec_len(),
        AnyBuilder::DurationSecond(x) => x.spec_len(),
        AnyBuilder::DurationMillisecond(x) => x.spec_len(),
        AnyBuilder::DurationMicrosecond(x) => x.spec_len(),
        AnyBuilder::DurationNanosecond(x) => x.spec_len(),
        AnyBuilder::Binary(x) => x.spec_len(),
        AnyBuilder::FixedSizeBinary(x) => x.spec_len(),
        AnyBuilder::Decimal(x) => x.spec_len(),
        AnyBuilder::Utf8(x) => x.spec_len(),
        AnyBuilder::Struct(s) => struct_len(s),
    }
}

/// Whether what was appended to `b` makes up an array.
pub open spec fn any_can_finish(b: AnyBuilder) -> bool
    decreases b,
{
    match b {
        AnyBuilder::Boolean(x) => x.can_finish(),
        AnyBuilder::Int8(x) => x.can_finish(),
        AnyBuilder::Int16(x) => x.can_finish(),
        AnyBuilder::Int32(x) => x.can_finish(),
        AnyBuilder::Int64(x) => x.can_finish(),
        AnyBuilder::UInt8(x) => x.can_finish(),
        AnyBuilder::UInt16(x) => x.can_finish(),
        AnyBuilder::UInt32(x) => x.can_finish(),
        AnyBuilder::UInt64(x) => x.can_finish(),
        AnyBuilder::Float32(x) => x.can_finish(),
        AnyBuilder::Float64(x) => x.can_finish(),
        AnyBuilder::Date32(x) => x.can_finish(),
        AnyBuilder::Date64(x) => x.can_finish(),
        AnyBuilder::Time32Second(x) => x.can_finish(),
        AnyBuilder::Time32Millisecond(x) => x.can_finish(),
        AnyBuilder::Time64Microsecond(x) => x.can_finish(),
        AnyBuilder::Time64Nanosecond(x) => x.can_finish(),
        AnyBuilder::TimestampSecond(x) => x.can_finish(),
        AnyBuilder::TimestampMillisecond(x) => x.can_finish(),
        AnyBuilder::TimestampMicrosecond(x) => x.can_finish(),
        AnyBuilder::TimestampNanosecond(x) => x.can_finish(),
        AnyBuilder::IntervalYearMonth(x) => x.can_finish(),
        AnyBuilder::IntervalDayTime(x) => x.can_finish(),
        AnyBuilder::DurationSecond(x) => x.can_finish(),
        AnyBuilder::DurationMillisecond(x) => x.can_finish(),
        AnyBuilder::DurationMicrosecond(x) => x.can_finish(),
        AnyBuilder::DurationNanosecond(x) => x.can_finish(),
        AnyBuilder::Binary(x) => x.can_finish(),
        AnyBuilder::FixedSizeBinary(x) => x.can_finish(),
        AnyBuilder::Decimal(x) => x.can_finish(),
        AnyBuilder::Utf8(x) => x.can_finish(),
        AnyBuilder::Struct(s) => struct_can_finish(s),
    }
}

/// The array that finishing `b` gives.
pub open spec fn any_built(b: AnyBuilder) -> ArrayDataView
    decreases b,
{
    match b {
        AnyBuilder::Boolean(x) => x.built(),
        AnyBuilder::Int8(x) => x.built(),
        AnyBuilder::Int16(x) => x.built(),
        AnyBuilder::Int32(x) => x.built(),
        AnyBuilder::Int64(x) => x.built(),
        AnyBuilder::UInt8(x) => x.built(),
        AnyBuilder::UInt16(x) => x.built(),
        AnyBuilder::UInt32(x) => x.built(),
        AnyBuilder::UInt64(x) => x.built(),
        AnyBuilder::Float32(x) => x.built(),
        AnyBuilder::Float64(x) => x.built(),
        AnyBuilder::Date32(x) => x.built(),
        AnyBuilder::Date64(x) => x.built(),
        AnyBuilder::Time32Second(x) => x.built(),
        AnyBuilder::Time32Millisecond(x) => x.built(),
        AnyBuilder::Time64Microsecond(x) => x.built(),
        AnyBuilder::Time64Nanosecond(x) => x.built(),
        AnyBuilder::TimestampSecond(x) => x.built(),
        AnyBuilder::TimestampMillisecond(x) => x.built(),
        AnyBuilder::TimestampMicrosecond(x) => x.built(),
        AnyBuilder::TimestampNanosecond(x) => x.built(),
        AnyBuilder::IntervalYearMonth(x) => x.built(),
        AnyBuilder::IntervalDayTime(x) => x.built(),
        AnyBuilder::DurationSecond(x) => x.built(),
        AnyBuilder::DurationMillisecond(x) => x.built(),
        AnyBuilder::DurationMicrosecond(x) => x.built(),
        AnyBuilder::DurationNanosecond(x) => x.built(),
        AnyBuilder::Binary(x) => x.built(),
        AnyBuilder::FixedSizeBinary(x) => x.built(),
        AnyBuilder::Decimal(x) => x.built(),
        AnyBuilder::Utf8(x) => x.built(),
        AnyBuilder::Struct(s) => struct_built(s),
    }
}

/// Whether `b` is the state in which finishing leaves a builder that was in
/// the state `before`: of the same kind, and reset as that kind is.
pub open spec fn any_reset_of(b: AnyBuilder, before: AnyBuilder) -> bool
    decreases b,
{
    match b {
        AnyBuilder::Boolean(x) => match before {
            AnyBuilder::Boolean(y) => x.reset_of(&y),
            _ => false,
        },
        AnyBuilder::Int8(x) => match before {
            AnyBuilder::Int8(y) => x.reset_of(&y),
            _ => false,
        },
        AnyBuilder::Int16(x) => match before {
            AnyBuilder::Int16(y) => x.reset_of(&y),
            _ => false,
        },
        AnyBuilder::Int32(x) => match before {
            AnyBuilder::Int32(y) => x.reset_of(&y),
            _ => false,
        },
        AnyBuilder::Int64(x) => match before {
            AnyBuilder::Int64(y) => x.reset_of(&y),
            _ => false,
        },
        AnyBuilder::UInt8(x) => match before {
            AnyBuilder::UInt8(y) => x.reset_of(&y),
            _ => false,
        },
        AnyBuilder::UInt16(x) => match before {
            AnyBuilder::UInt16(y) => x.reset_of(&y),
            _ => false,
        },
        AnyBuilder::UInt32(x) => match before {
            AnyBuilder::UInt32(y) => x.reset_of(&y),
            _ => false,
        },
        AnyBuilder::UInt64(x) => match before {
            AnyBuilder::UInt64(y) => x.reset_of(&y),
            _ => false,
        },
        AnyBuilder::Float32(x) => match before {
            AnyBuilder::Float32(y) => x.reset_of(&y),
            _ => false,
        },
        AnyBuilder::Float64(x) => match before {
            AnyBuilder::Float64(y) => x.reset_of(&y),
            _ => false,
        },
        AnyBuilder::Date32(x) => match before {
            AnyBuilder::Date32(y) => x.reset_of(&y),
            _ => false,
        },
        AnyBuilder::Date64(x) => match before {
            AnyBuilder::Date64(y) => x.reset_of(&y),
            _ => false,
        },
        AnyBuilder::Time32Second(x) => match before {
            AnyBuilder::Time32Second(y) => x.reset_of(&y),
            _ => false,
        },
        AnyBuilder::Time32Millisecond(x) => match before {
            AnyBuilder::Time32Millisecond(y) => x.reset_of(&y),
            _ => false,
        },
        AnyBuilder::Time64Microsecond(x) => match before {
            AnyBuilder::Time64Microsecond(y) => x.reset_of(&y),
            _ => false,
        },
        AnyBuilder::Time64Nanosecond(x) => match before {
            AnyBuilder::Time64Nanosecond(y) => x.reset_of(&y),
            _ => false,
        },
        AnyBuilder::TimestampSecond(x) => match before {
            AnyBuilder::TimestampSecond(y) => x.reset_of(&y),
            _ => false,
        },
        AnyBuilder::TimestampMillisecond(x) => match before {
            AnyBuilder::TimestampMillisecond(y) => x.reset_of(&y),
            _ => false,
        },
        AnyBuilder::TimestampMicrosecond(x) => match before {
            AnyBuilder::TimestampMicrosecond(y) => x.reset_of(&y),
            _ => false,
        },
        AnyBuilder::TimestampNanosecond(x) => match before {
            AnyBuilder::TimestampNanosecond(y) => x.reset_of(&y),
            _ => false,
        },
        AnyBuilder::IntervalYearMonth(x) => match before {
            AnyBuilder::IntervalYearMonth(y) => x.reset_of(&y),
            _ => false,
        },
        AnyBuilder::IntervalDayTime(x) => match before {
            AnyBuilder::IntervalDayTime(y) => x.reset_of(&y),
            _ => false,
        },
        AnyBuilder::DurationSecond(x) => match before {
            AnyBuilder::DurationSecond(y) => x.reset_of(&y),
            _ => false,
        },
        AnyBuilder::DurationMillisecond(x) => match before {
            AnyBuilder::DurationMillisecond(y) => x.reset_of(&y),
            _ => false,
        },
        AnyBuilder::DurationMicrosecond(x) => match before {
            AnyBuilder::DurationMicrosecond(y) => x.reset_of(&y),
            _ => false,
        },
        AnyBuilder::DurationNanosecond(x) => match before {
            AnyBuilder::DurationNanosecond(y) => x.reset_of(&y),
            _ => false,
        },
        AnyBuilder::Binary(x) => match before {
            AnyBuilder::Binary(y) => x.reset_of(&y),
            _ => false,
        },
        AnyBuilder::FixedSizeBinary(x) => match before {
            AnyBuilder::FixedSizeBinary(y) => x.reset_of(&y),
            _ => false,
        },
        AnyBuilder::Decimal(x) => match before {
            AnyBuilder::Decimal(y) => x.reset_of(&y),
            _ => false,
        },
        AnyBuilder::Utf8(x) => match before {
            AnyBuilder::Utf8(y) => x.reset_of(&y),
            _ => false,
        },
        AnyBuilder::Struct(s) => match before {
            AnyBuilder::Struct(t) => struct_reset_of(s, t),
            _ => false,
        },
    }
}

/// Whether each builder of `children` is well-formed.
pub closed spec fn children_wf(children: Seq<AnyBuilder>) -> bool
    decreases children,
{
    if children.len() == 0 {
        true
    } else {
        children_wf(children.drop_last()) && any_wf(children.last())
    }
}

/// Whether each builder of `children` can be finished.
pub closed spec fn children_can_finish(children: Seq<AnyBuilder>) -> bool
    decreases children,
{
    if children.len() == 0 {
        true
    } else {
        children_can_finish(children.drop_last()) && any_can_finish(children.last())
    }
}

/// The arrays that finishing the builders of `children` gives.
pub closed spec fn children_built(children: Seq<AnyBuilder>) -> Seq<ArrayDataView>
    decreases children,
{
    if children.len() == 0 {
        Seq::empty()
    } else {
        children_built(children.drop_last()).push(any_built(children.last()))
    }
}

/// Whether each builder of `children` is the one of `before` at its place,
/// reset.
pub closed spec fn children_reset_of(children: Seq<AnyBuilder>, before: Seq<AnyBuilder>) -> bool
    decreases children,
{
    if children.len() != before.len() {
        false
    } else if children.len() == 0 {
        true
    } else {
        children_reset_of(children.drop_last(), before.drop_last()) && any_reset_of(
            children.last(),
            before.last(),
        )
    }
}

/// The parts of `s` other than the field builders agree with each other.
pub closed spec fn struct_frame_wf(s: StructBuilder) -> bool {
    &&& s.bitmap_builder.wf()
    &&& s.bitmap_builder.spec_len() == s.len
    &&& s.bitmap_builder.bytes().len() == spec_ceil8(s.len as nat)
    &&& s.len <= MAX_SLOTS
}

/// Whether the parts of `s` agree with each other and each field builder
/// is well-formed.
pub closed spec fn struct_wf(s: StructBuilder) -> bool
    decreases s,
{
    struct_frame_wf(s) && children_wf(s.field_builders@)
}

/// The number of slots appended to `s`.
pub closed spec fn struct_len(s: StructBuilder) -> nat {
    s.len as nat
}

/// Whether each field builder of `s` can be finished.
pub closed spec fn struct_can_finish(s: StructBuilder) -> bool
    decreases s,
{
    children_can_finish(s.field_builders@)
}

/// The array that finishing `s` gives: of the struct type of the declared
/// fields, with the array of each field builder as a child, and with a
/// validity bitmap only if some slot is null.
pub closed spec fn struct_built(s: StructBuilder) -> ArrayDataView
    decreases s,
{
    let validity = s.bitmap_builder@;
    let null_count = (s.len - count_true(validity)) as nat;
    ArrayDataView {
        data_type: DataTypeView::Struct(fields_view(s.fields@)),
        len: s.len as nat,
        null_count,
        offset: 0,
        buffers: Seq::empty(),
        child_data: children_built(s.field_builders@),
        null_bitmap: if null_count > 0 {
            Some(pack_bits(validity, spec_ceil8(s.len as nat)))
        } else {
            None
        },
    }
}

/// Whether `s` is the state in which finishing leaves a struct builder that
/// was in the state `before`: empty, with the same fields, and each field
/// builder reset.
pub closed spec fn struct_reset_of(s: StructBuilder, before: StructBuilder) -> bool
    decreases s,
{
    &&& struct_wf(s)
    &&& s.len == 0
    &&& s.bitmap_builder@ == Seq::<bool>::empty()
    &&& fields_view(s.fields@) == fields_view(before.fields@)
    &&& children_reset_of(s.field_builders@, before.field_builders@)
}

/// What holds of each of `children` holds of every one of them.
pub proof fn lemma_children(children: Seq<AnyBuilder>)
    ensures
        children_wf(children) <==> forall|i: int|
            0 <= i < children.len() ==> any_wf(#[trigger] children[i]),
        children_can_finish(children) <==> forall|i: int|
            0 <= i < children.len() ==> any_can_finish(#[trigger] children[i]),
        children_built(children).len() == children.len(),
        forall|i: int|
            0 <= i < children.len() ==> #[trigger] children_built(children)[i] == any_built(
                children[i],
            ),
    decreases children.len(),
{
    if children.len() > 0 {
        lemma_children(children.drop_last());
        let rest = children.drop_last();
        if children_wf(children) {
            assert forall|i: int| 0 <= i < children.len() implies any_wf(
                #[trigger] children[i],
            ) by {
                if i < rest.len() {
                    assert(rest[i] == children[i]);
                }
            }
        } else if forall|i: int| 0 <= i < children.len() ==> any_wf(#[trigger] children[i]) {
            assert forall|i: int| 0 <= i < rest.len() implies any_wf(#[trigger] rest[i]) by {
                assert(rest[i] == children[i]);
            }
            assert(any_wf(children[children.len() - 1]));
        }
        if children_can_finish(children) {
            assert forall|i: int| 0 <= i < children.len() implies any_can_finish(
                #[trigger] children[i],
            ) by {
                if i < rest.len() {
                    assert(rest[i] == children[i]);
                }
            }
        } else if forall|i: int|
            0 <= i < children.len() ==> any_can_finish(#[trigger] children[i]) {
            assert forall|i: int| 0 <= i < rest.len() implies any_can_finish(
                #[trigger] rest[i],
            ) by {
                assert(rest[i] == children[i]);
            }
            assert(any_can_finish(children[children.len() - 1]));
        }
    }
}

/// Builders that are each the one of `before` at its place, reset, are
/// well-formed and empty.
pub proof fn lemma_children_reset(children: Seq<AnyBuilder>, before: Seq<AnyBuilder>)
    ensures
        children_reset_of(children, before) <==> children.len() == before.len() && forall|i: int|
            0 <= i < children.len() ==> any_reset_of(#[trigger] children[i], before[i]),
    decreases children.len(),
{
    if children.len() == before.len() && children.len() > 0 {
        lemma_children_reset(children.drop_last(), before.drop_last());
        let rest = children.drop_last();
        let rest_before = before.drop_last();
        if children_reset_of(children, before) {
            assert forall|i: int| 0 <= i < children.len() implies any_reset_of(
                #[trigger] children[i],
                before[i],
            ) by {
                if i < rest.len() {
                    assert(rest[i] == children[i]);
                    assert(rest_before[i] == before[i]);
                }
            }
        } else if forall|i: int|
            0 <= i < children.len() ==> any_reset_of(#[trigger] children[i], before[i]) {
            assert forall|i: int| 0 <= i < rest.len() implies any_reset_of(
                #[trigger] rest[i],
                rest_before[i],
            ) by {
                assert(rest[i] == children[i]);
                assert(rest_before[i] == before[i]);
            }
            assert(any_reset_of(children[children.len() - 1], before[before.len() - 1]));
        }
    }
}

impl ArrayBuilder for AnyBuilder {
    open spec fn wf(&self) -> bool {
        any_wf(*self)
    }

    open spec fn spec_len(&self) -> nat {
        any_len(*self)
    }

    open spec fn can_finish(&self) -> bool {
        any_can_finish(*self)
    }

    open spec fn built(&self) -> ArrayDataView {
        any_built(*self)
    }

    open spec fn reset_of(&self, before: &Self) -> bool {
        any_reset_of(*self, *before)
    }

    proof fn lemma_built_len(&self) {
        lemma_any_built_len(*self);
    }

    fn len(&self) -> (r: usize) {
        match self {
            AnyBuilder::Boolean(x) => x.len(),
            AnyBuilder::Int8(x) => x.len(),
            AnyBuilder::Int16(x) => x.len(),
            AnyBuilder::Int32(x) => x.len(),
            AnyBuilder::Int64(x) => x.len(),
            AnyBuilder::UInt8(x) => x.len(),
            AnyBuilder::UInt16(x) => x.len(),
            AnyBuilder::UInt32(x) => x.len(),
            AnyBuilder::UInt64(x) => x.len(),
            AnyBuilder::Float32(x) => x.len(),
            AnyBuilder::Float64(x) => x.len(),
            AnyBuilder::Date32(x) => x.len(),
            AnyBuilder::Date64(x) => x.len(),
            AnyBuilder::Time32Second(x) => x.len(),
            AnyBuilder::Time32Millisecond(x) => x.len(),
            AnyBuilder::Time64Microsecond(x) => x.len(),
            AnyBuilder::Time64Nanosecond(x) => x.len(),
            AnyBuilder::TimestampSecond(x) => x.len(),
            AnyBuilder::TimestampMillisecond(x) => x.len(),
            AnyBuilder::TimestampMicrosecond(x) => x.len(),
            AnyBuilder::TimestampNanosecond(x) => x.len(),
            AnyBuilder::IntervalYearMonth(x) => x.len(),
            AnyBuilder::IntervalDayTime(x) => x.len(),
            AnyBuilder::DurationSecond(x) => x.len(),
            AnyBuilder::DurationMillisecond(x) => x.len(),
            AnyBuilder::DurationMicrosecond(x) => x.len(),
            AnyBuilder::DurationNanosecond(x) => x.len(),
            AnyBuilder::Binary(x) => x.len(),
            AnyBuilder::FixedSizeBinary(x) => x.len(),
            AnyBuilder::Decimal(x) => x.len(),
            AnyBuilder::Utf8(x) => x.len(),
            AnyBuilder::Struct(s) => s.len,
        }
    }

    fn is_empty(&self) -> (r: bool) {
        self.len() == 0
    }

    fn finish(&mut self) -> (r: ArrayRef) {
        any_finish(self)
    }
}

/// The array that finishing a builder gives has the builder's slots.
pub proof fn lemma_any_built_len(b: AnyBuilder)
    requires
        any_wf(b),
    ensures
        any_built(b).len == any_len(b),
{
    match b {
        AnyBuilder::Boolean(x) => {
            x.lemma_built_len();
        },
        AnyBuilder::Int8(x) => {
            x.lemma_built_len();
        },
        AnyBuilder::Int16(x) => {
            x.lemma_built_len();
        },
        AnyBuilder::Int32(x) => {
            x.lemma_built_len();
        },
        AnyBuilder::Int64(x) => {
            x.lemma_built_len();
        },
        AnyBuilder::UInt8(x) => {
            x.lemma_built_len();
        },
        AnyBuilder::UInt16(x) => {
            x.lemma_built_len();
        },
        AnyBuilder::UInt32(x) => {
            x.lemma_built_len();
        },
        AnyBuilder::UInt64(x) => {
            x.lemma_built_len();
        },
        AnyBuilder::Float32(x) => {
            x.lemma_built_len();
        },
        AnyBuilder::Float64(x) => {
            x.lemma_built_len();
        },
        AnyBuilder::Date32(x) => {
            x.lemma_built_len();
        },
        AnyBuilder::Date64(x) => {
            x.lemma_built_len();
        },
        AnyBuilder::Time32Second(x) => {
            x.lemma_built_len();
        },
        AnyBuilder::Time32Millisecond(x) => {
            x.lemma_built_len();
        },
        AnyBuilder::Time64Microsecond(x) => {
            x.lemma_built_len();
        },
        AnyBuilder::Time64Nanosecond(x) => {
            x.lemma_built_len();
        },
        AnyBuilder::TimestampSecond(x) => {
            x.lemma_built_len();
        },
        AnyBuilder::TimestampMillisecond(x) => {
            x.lemma_built_len();
        },
        AnyBuilder::TimestampMicrosecond(x) => {
            x.lemma_built_len();
        },
        AnyBuilder::TimestampNanosecond(x) => {
            x.lemma_built_len();
        },
        AnyBuilder::IntervalYearMonth(x) => {
            x.lemma_built_len();
        },
        AnyBuilder::IntervalDayTime(x) => {
            x.lemma_built_len();
        },
        AnyBuilder::DurationSecond(x) => {
            x.lemma_built_len();
        },
        AnyBuilder::DurationMillisecond(x) => {
            x.lemma_built_len();
        },
        AnyBuilder::DurationMicrosecond(x) => {
            x.lemma_built_len();
        },
        AnyBuilder::DurationNanosecond(x) => {
            x.lemma_built_len();
        },
        AnyBuilder::Binary(x) => {
            x.lemma_built_len();
        },
        AnyBuilder::FixedSizeBinary(x) => {
            x.lemma_built_len();
        },
        AnyBuilder::Decimal(x) => {
            x.lemma_built_len();
        },
        AnyBuilder::Utf8(x) => {
            x.lemma_built_len();
        },
        AnyBuilder::Struct(s) => {},
    }
}

/// Finishes a builder of any kind.
pub fn any_finish(b: &mut AnyBuilder) -> (r: ArrayRef)
    requires
        any_wf(*old(b)),
        any_can_finish(*old(b)),
    ensures
        r@ == any_built(*old(b)),
        any_wf(*final(b)),
        any_len(*final(b)) == 0,
        any_reset_of(*final(b), *old(b)),
    decreases *old(b),
{
    match b {
        AnyBuilder::Boolean(x) => ArrayBuilder::finish(x),
        AnyBuilder::Int8(x) => ArrayBuilder::finish(x),
        AnyBuilder::Int16(x) => ArrayBuilder::finish(x),
        AnyBuilder::Int32(x) => ArrayBuilder::finish(x),
        AnyBuilder::Int64(x) => ArrayBuilder::finish(x),
        AnyBuilder::UInt8(x) => ArrayBuilder::finish(x),
        AnyBuilder::UInt16(x) => ArrayBuilder::finish(x),
        AnyBuilder::UInt32(x) => ArrayBuilder::finish(x),
        AnyBuilder::UInt64(x) => ArrayBuilder::finish(x),
        AnyBuilder::Float32(x) => ArrayBuilder::finish(x),
        AnyBuilder::Float64(x) => ArrayBuilder::finish(x),
        AnyBuilder::Date32(x) => ArrayBuilder::finish(x),
        AnyBuilder::Date64(x) => ArrayBuilder::finish(x),
        AnyBuilder::Time32Second(x) => ArrayBuilder::finish(x),
        AnyBuilder::Time32Millisecond(x) => ArrayBuilder::finish(x),
        AnyBuilder::Time64Microsecond(x) => ArrayBuilder::finish(x),
        AnyBuilder::Time64Nanosecond(x) => ArrayBuilder::finish(x),
        AnyBuilder::TimestampSecond(x) => ArrayBuilder::finish(x),
        AnyBuilder::TimestampMillisecond(x) => ArrayBuilder::finish(x),
        AnyBuilder::TimestampMicrosecond(x) => ArrayBuilder::finish(x),
        AnyBuilder::TimestampNanosecond(x) => ArrayBuilder::finish(x),
        AnyBuilder::IntervalYearMonth(x) => ArrayBuilder::finish(x),
        AnyBuilder::IntervalDayTime(x) => ArrayBuilder::finish(x),
        AnyBuilder::DurationSecond(x) => ArrayBuilder::finish(x),
        AnyBuilder::DurationMillisecond(x) => ArrayBuilder::finish(x),
        AnyBuilder::DurationMicrosecond(x) => ArrayBuilder::finish(x),
        AnyBuilder::DurationNanosecond(x) => ArrayBuilder::finish(x),
        AnyBuilder::Binary(x) => ArrayBuilder::finish(x),
        AnyBuilder::FixedSizeBinary(x) => ArrayBuilder::finish(x),
        AnyBuilder::Decimal(x) => ArrayBuilder::finish(x),
        AnyBuilder::Utf8(x) => ArrayBuilder::finish(x),
        AnyBuilder::Struct(s) => struct_finish(s).into_ref(),
    }
}

/// Finishes every field builder of a struct, in order.
fn finish_children(s: &mut StructBuilder) -> (r: Vec<ArrayData>)
    requires
        struct_wf(*old(s)),
        struct_can_finish(*old(s)),
    ensures
        children_view(r@) == children_built(old(s).field_builders@),
        children_reset_of(final(s).field_builders@, old(s).field_builders@),
        children_wf(final(s).field_builders@),
        final(s).fields == old(s).fields,
        final(s).bitmap_builder == old(s).bitmap_builder,
        final(s).len == old(s).len,
    decreases *old(s), 0nat,
{
    let n: usize = s.field_builders.len();
    let mut child_data: Vec<ArrayData> = Vec::new();
    let mut i: usize = 0;
    proof {
        lemma_children(old(s).field_builders@);
        lemma_children_view_empty();
    }
    while i < n
        invariant
            i <= n,
            n == old(s).field_builders@.len(),
            s.field_builders@.len() == n,
            s.fields == old(s).fields,
            s.bitmap_builder == old(s).bitmap_builder,
            s.len == old(s).len,
            child_data@.len() == i,
            forall|k: int| 0 <= k < i ==> (#[trigger] child_data@[k])@ == any_built(
                old(s).field_builders@[k],
            ),
            forall|k: int|
                0 <= k < i ==> any_reset_of(
                    #[trigger] s.field_builders@[k],
                    old(s).field_builders@[k],
                ) && any_wf(s.field_builders@[k]),
            forall|k: int| i <= k < n ==> #[trigger] s.field_builders@[k] == old(
                s,
            ).field_builders@[k],
            forall|k: int|
                0 <= k < n ==> any_wf(#[trigger] old(s).field_builders@[k]) && any_can_finish(
                    old(s).field_builders@[k],
                ),
        decreases n - i,
    {
        let arr = any_finish(&mut s.field_builders[i]);
        child_data.push(arr.into_data());
        i = i + 1;
    }
    proof {
        lemma_children(s.field_builders@);
        lemma_children_reset(s.field_builders@, old(s).field_builders@);
        lemma_children_view(child_data@);
        assert(children_view(child_data@) =~= children_built(old(s).field_builders@));
    }
    child_data
}

/// Finishes a struct builder.
pub fn struct_finish(s: &mut StructBuilder) -> (r: StructArray)
    requires
        struct_wf(*old(s)),
        struct_can_finish(*old(s)),
    ensures
        r@ == struct_built(*old(s)),
        r.wf(),
        struct_reset_of(*final(s), *old(s)),
    decreases *old(s), 1nat,
{
    let child_data = finish_children(s);
    proof {
        s.bitmap_builder.lemma_wf();
        lemma_pack_bits(s.bitmap_builder@, spec_ceil8(s.len as nat));
        lemma_count_held(s.bitmap_builder.bytes(), s.bitmap_builder@);
        lemma_count_nulls_held(s.bitmap_builder.bytes(), s.bitmap_builder@);
    }
    let null_bit_buffer = s.bitmap_builder.finish();
    let null_count: usize = s.len - null_bit_buffer.count_set_bits();
    let mut builder = ArrayData::builder(DataType::Struct(clone_fields(&s.fields))).len(
        s.len,
    ).child_data(child_data);
    if null_count > 0 {
        builder = builder.null_bit_buffer(null_bit_buffer);
    }
    s.len = 0;
    StructArray::from_data(builder.build())
}

/// A builder that can be held by kind: wrapped as a builder of any kind, and
/// recovered from one by a checked downcast.
pub trait BuilderKind: ArrayBuilder {
    /// This builder as a builder of any kind.
    spec fn spec_erase(self) -> AnyBuilder;

    /// The builder of this kind that `any` holds, if it holds one.
    spec fn spec_downcast(any: AnyBuilder) -> Option<Self>;

    /// Wraps the builder as a builder of any kind.
    fn into_any(self) -> (r: AnyBuilder)
        ensures
            r == self.spec_erase(),
    ;

    /// The builder of this kind that `any` holds; nothing if it holds one
    /// of another kind.
    fn downcast_ref(any: &AnyBuilder) -> (r: Option<&Self>)
        ensures
            match r {
                Some(b) => Self::spec_downcast(*any) == Some(*b) && *any == b.spec_erase(),
                None => Self::spec_downcast(*any) is None,
            },
    ;

    /// The builder of this kind that `any` holds, to be changed in place;
    /// nothing if it holds one of another kind.
    fn downcast_mut(any: &mut AnyBuilder) -> (r: Option<&mut Self>)
        ensures
            match r {
                Some(b) => Self::spec_downcast(*old(any)) == Some(*b) && *old(any)
                    == b.spec_erase() && *final(any) == final(b).spec_erase(),
                None => Self::spec_downcast(*old(any)) is None && *final(any) == *old(any),
            },
    ;
}

impl<T: ArrowPrimitiveType> BuilderKind for PrimitiveBuilder<T> {
    open spec fn spec_erase(self) -> AnyBuilder {
        T::spec_erase(self)
    }

    open spec fn spec_downcast(any: AnyBuilder) -> Option<Self> {
        T::spec_downcast(any)
    }

    fn into_any(self) -> (r: AnyBuilder) {
        T::erase(self)
    }

    fn downcast_ref(any: &AnyBuilder) -> (r: Option<&Self>) {
        T::downcast_ref(any)
    }

    fn downcast_mut(any: &mut AnyBuilder) -> (r: Option<&mut Self>) {
        T::downcast_mut(any)
    }
}

impl BuilderKind for BooleanBuilder {
    open spec fn spec_erase(self) -> AnyBuilder {
        AnyBuilder::Boolean(self)
    }

    open spec fn spec_downcast(any: AnyBuilder) -> Option<Self> {
        match any {
            AnyBuilder::Boolean(b) => Some(b),
            _ => None,
        }
    }

    fn into_any(self) -> (r: AnyBuilder) {
        AnyBuilder::Boolean(self)
    }

    fn downcast_ref(any: &AnyBuilder) -> (r: Option<&Self>) {
        match any {
            AnyBuilder::Boolean(b) => Some(b),
            _ => None,
        }
    }

    fn downcast_mut(any: &mut AnyBuilder) -> (r: Option<&mut Self>) {
        match any {
            AnyBuilder::Boolean(b) => Some(b),
            _ => None,
        }
    }
}

impl BuilderKind for GenericBinaryBuilder<i32> {
    open spec fn spec_erase(self) -> AnyBuilder {
        AnyBuilder::Binary(self)
    }

    open spec fn spec_downcast(any: AnyBuilder) -> Option<Self> {
        match any {
            AnyBuilder::Binary(b) => Some(b),
            _ => None,
        }
    }

    fn into_any(self) -> (r: AnyBuilder) {
        AnyBuilder::Binary(self)
    }

    fn downcast_ref(any: &AnyBuilder) -> (r: Option<&Self>) {
        match any {
            AnyBuilder::Binary(b) => Some(b),
            _ => None,
        }
    }

    fn downcast_mut(any: &mut AnyBuilder) -> (r: Option<&mut Self>) {
        match any {
            AnyBuilder::Binary(b) => Some(b),
            _ => None,
        }
    }
}

impl BuilderKind for FixedSizeBinaryBuilder {
    open spec fn spec_erase(self) -> AnyBuilder {
        AnyBuilder::FixedSizeBinary(self)
    }

    open spec fn spec_downcast(any: AnyBuilder) -> Option<Self> {
        match any {
            AnyBuilder::FixedSizeBinary(b) => Some(b),
            _ => None,
        }
    }

    fn into_any(self) -> (r: AnyBuilder) {
        AnyBuilder::FixedSizeBinary(self)
    }

    fn downcast_ref(any: &AnyBuilder) -> (r: Option<&Self>) {
        match any {
            AnyBuilder::FixedSizeBinary(b) => Some(b),
            _ => None,
        }
    }

    fn downcast_mut(any: &mut AnyBuilder) -> (r: Option<&mut Self>) {
        match any {
            AnyBuilder::FixedSizeBinary(b) => Some(b),
            _ => None,
        }
    }
}

impl BuilderKind for DecimalBuilder {
    open spec fn spec_erase(self) -> AnyBuilder {
        AnyBuilder::Decimal(self)
    }

    open spec fn spec_downcast(any: AnyBuilder) -> Option<Self> {
        match any {
            AnyBuilder::Decimal(b) => Some(b),
            _ => None,
        }
    }

    fn into_any(self) -> (r: AnyBuilder) {
        AnyBuilder::Decimal(self)
    }

    fn downcast_ref(any: &AnyBuilder) -> (r: Option<&Self>) {
        match any {
            AnyBuilder::Decimal(b) => Some(b),
            _ => None,
        }
    }

    fn downcast_mut(any: &mut AnyBuilder) -> (r: Option<&mut Self>) {
        match any {
            AnyBuilder::Decimal(b) => Some(b),
            _ => None,
        }
    }
}

impl BuilderKind for GenericStringBuilder<i32> {
    open spec fn spec_erase(self) -> AnyBuilder {
        AnyBuilder::Utf8(self)
    }

    open spec fn spec_downcast(any: AnyBuilder) -> Option<Self> {
        match any {
            AnyBuilder::Utf8(b) => Some(b),
            _ => None,
        }
    }

    fn into_any(self) -> (r: AnyBuilder) {
        AnyBuilder::Utf8(self)
    }

    fn downcast_ref(any: &AnyBuilder) -> (r: Option<&Self>) {
        match any {
            AnyBuilder::Utf8(b) => Some(b),
            _ => None,
        }
    }

    fn downcast_mut(any: &mut AnyBuilder) -> (r: Option<&mut Self>) {
        match any {
            AnyBuilder::Utf8(b) => Some(b),
            _ => None,
        }
    }
}

impl BuilderKind for StructBuilder {
    open spec fn spec_erase(self) -> AnyBuilder {
        AnyBuilder::Struct(self)
    }

    open spec fn spec_downcast(any: AnyBuilder) -> Option<Self> {
        match any {
            AnyBuilder::Struct(b) => Some(b),
            _ => None,
        }
    }

    fn into_any(self) -> (r: AnyBuilder) {
        AnyBuilder::Struct(self)
    }

    fn downcast_ref(any: &AnyBuilder) -> (r: Option<&Self>) {
        match any {
            AnyBuilder::Struct(b) => Some(b),
            _ => None,
        }
    }

    fn downcast_mut(any: &mut AnyBuilder) -> (r: Option<&mut Self>) {
        match any {
            AnyBuilder::Struct(b) => Some(b),
            _ => None,
        }
    }
}

impl ArrayBuilder for StructBuilder {
    open spec fn wf(&self) -> bool {
        struct_wf(*self)
    }

    open spec fn spec_len(&self) -> nat {
        struct_len(*self)
    }

    /// Every field builder can be finished.
    open spec fn can_finish(&self) -> bool {
        struct_can_finish(*self)
    }

    open spec fn built(&self) -> ArrayDataView {
        struct_built(*self)
    }

    open spec fn reset_of(&self, before: &Self) -> bool {
        struct_reset_of(*self, *before)
    }

    proof fn lemma_built_len(&self) {
    }

    fn len(&self) -> (r: usize) {
        self.len
    }

    fn is_empty(&self) -> (r: bool) {
        self.len == 0
    }

    fn finish(&mut self) -> (r: ArrayRef) {
        struct_finish(self).into_ref()
    }
}

impl StructBuilder {
    /// The declared fields.
    pub closed spec fn spec_fields(&self) -> Seq<FieldView> {
        fields_view(self.fields@)
    }

    /// The field builders, by kind.
    pub closed spec fn children(&self) -> Seq<AnyBuilder> {
        self.field_builders@
    }

    /// Which slots hold a struct.
    pub closed spec fn validity(&self) -> Seq<bool> {
        self.bitmap_builder@
    }

    /// How the state is made up of its parts.
    pub proof fn lemma_wf(&self)
        ensures
            self.wf() ==> self.validity().len() == self.spec_len() && self.spec_len() <= MAX_SLOTS,
            self.wf() ==> forall|i: int|
                0 <= i < self.children().len() ==> any_wf(#[trigger] self.children()[i]),
            self.can_finish() <==> forall|i: int|
                0 <= i < self.children().len() ==> any_can_finish(#[trigger] self.children()[i]),
            self.built().data_type == DataTypeView::Struct(self.spec_fields()),
            self.built().len == self.spec_len(),
            self.wf() ==> self.built().null_count == self.spec_len() - count_true(self.validity()),
            self.built().offset == 0,
            self.built().buffers == Seq::<Seq<u8>>::empty(),
            self.built().child_data.len() == self.children().len(),
            forall|i: int|
                0 <= i < self.children().len() ==> #[trigger] self.built().child_data[i]
                    == any_built(self.children()[i]),
            self.built().null_bitmap == if self.built().null_count > 0 {
                Some(pack_bits(self.validity(), spec_ceil8(self.spec_len())))
            } else {
                None
            },
    {
        lemma_children(self.field_builders@);
        if self.wf() {
            self.bitmap_builder.lemma_wf();
            lemma_count_true_bounds(self.bitmap_builder@);
        }
    }

    /// How a reset state relates to the state before.
    pub proof fn lemma_reset(&self, before: &Self)
        requires
            self.reset_of(before),
        ensures
            self.wf(),
            self.spec_len() == 0,
            self.validity() == Seq::<bool>::empty(),
            self.spec_fields() == before.spec_fields(),
            self.children().len() == before.children().len(),
            forall|i: int|
                0 <= i < self.children().len() ==> any_reset_of(
                    #[trigger] self.children()[i],
                    before.children()[i],
                ),
    {
        lemma_children_reset(self.field_builders@, before.field_builders@);
    }

    /// A struct builder for `fields`, its field builders given.
    pub fn new(fields: Vec<Field>, field_builders: Vec<AnyBuilder>) -> (r: Self)
        requires
            forall|i: int| 0 <= i < field_builders@.len() ==> any_wf(#[trigger] field_builders@[i]),
        ensures
            r.wf(),
            r.spec_len() == 0,
            r.spec_fields() == fields_view(fields@),
            r.children() == field_builders@,
            r.validity() == Seq::<bool>::empty(),
    {
        proof {
            lemma_children(field_builders@);
        }
        Self { fields, field_builders, bitmap_builder: BooleanBufferBuilder::new(0), len: 0 }
    }

    /// A struct builder for `fields`, with a new builder of `capacity` for
    /// each field, of the kind that the field's declared type asks for.
    pub fn from_fields(fields: Vec<Field>, capacity: usize) -> (r: Self)
        requires
            all_supported(fields_view(fields@)),
            capacity <= MAX_SLOTS,
        ensures
            r.wf(),
            r.spec_len() == 0,
            r.spec_fields() == fields_view(fields@),
            r.validity() == Seq::<bool>::empty(),
            r.children().len() == fields@.len(),
            forall|i: int|
                0 <= i < fields@.len() ==> made_for(
                    #[trigger] r.children()[i],
                    fields@[i]@.data_type,
                    capacity as nat,
                ),
    {
        let builders = builders_for(&fields, capacity);
        Self::new(fields, builders)
    }

    /// The builder of field `i`, if it is of kind `T`; nothing if it is of
    /// another kind.
    pub fn field_builder<T: BuilderKind>(&mut self, i: usize) -> (r: Option<&mut T>)
        requires
            i < old(self).children().len(),
        ensures
            match r {
                Some(b) => T::spec_downcast(old(self).children()[i as int]) == Some(*b)
                    && final(self).children() == old(self).children().update(
                    i as int,
                    final(b).spec_erase(),
                ),
                None => T::spec_downcast(old(self).children()[i as int]) is None
                    && final(self).children() == old(self).children(),
            },
            final(self).spec_len() == old(self).spec_len(),
            final(self).spec_fields() == old(self).spec_fields(),
            final(self).validity() == old(self).validity(),
            struct_frame_wf(*final(self)) == struct_frame_wf(*old(self)),
    {
        T::downcast_mut(&mut self.field_builders[i])
    }

    /// The number of fields.
    pub fn num_fields(&self) -> (r: usize)
        ensures
            r == self.children().len(),
    {
        self.field_builders.len()
    }

    /// Appends a slot to the struct; it is null unless `is_valid`. The
    /// field builders are not touched.
    pub fn append(&mut self, is_valid: bool) -> (r: Result<(), ArrowError>)
        requires
            old(self).wf(),
            old(self).spec_len() < MAX_SLOTS,
        ensures
            r is Ok,
            final(self).wf(),
            final(self).spec_len() == old(self).spec_len() + 1,
            final(self).validity() == old(self).validity().push(is_valid),
            final(self).children() == old(self).children(),
            final(self).spec_fields() == old(self).spec_fields(),
    {
        proof {
            self.bitmap_builder.lemma_wf();
        }
        self.bitmap_builder.append(is_valid);
        self.len += 1;
        Ok(())
    }

    /// Appends a null slot to the struct.
    pub fn append_null(&mut self) -> (r: Result<(), ArrowError>)
        requires
            old(self).wf(),
            old(self).spec_len() < MAX_SLOTS,
        ensures
            r is Ok,
            final(self).wf(),
            final(self).spec_len() == old(self).spec_len() + 1,
            final(self).validity() == old(self).validity().push(false),
            final(self).children() == old(self).children(),
            final(self).spec_fields() == old(self).spec_fields(),
    {
        self.append(false)
    }

    /// Builds the array and leaves the builder empty: every field builder
    /// is finished too, in order. The array carries a validity bitmap only
    /// if some slot is null.
    pub fn finish(&mut self) -> (r: StructArray)
        requires
            old(self).wf(),
            old(self).can_finish(),
        ensures
            r@ == old(self).built(),
            r.wf(),
            final(self).reset_of(old(self)),
    {
        struct_finish(self)
    }
}

/// A struct whose frame is well-formed is well-formed once each of its
/// field builders is.
pub proof fn lemma_struct_wf(s: StructBuilder)
    ensures
        struct_wf(s) <==> (struct_frame_wf(s) && (forall|i: int|
            0 <= i < s.children().len() ==> any_wf(#[trigger] s.children()[i]))),
{
    lemma_children(s.field_builders@);
    assert(s.children() == s.field_builders@);
    assert(struct_wf(s) == (struct_frame_wf(s) && children_wf(s.field_builders@)));
}

/// Whether the factory has a builder for the declared type.
pub open spec fn supported(data_type: DataTypeView) -> bool
    decreases data_type,
{
    match data_type {
        DataTypeView::Boolean => true,
        DataTypeView::Int8 => true,
        DataTypeView::Int16 => true,
        DataTypeView::Int32 => true,
        DataTypeView::Int64 => true,
        DataTypeView::UInt8 => true,
        DataTypeView::UInt16 => true,
        DataTypeView::UInt32 => true,
        DataTypeView::UInt64 => true,
        DataTypeView::Float32 => true,
        DataTypeView::Float64 => true,
        DataTypeView::Binary => true,
        DataTypeView::FixedSizeBinary(_) => true,
        DataTypeView::Decimal(_, _) => true,
        DataTypeView::Utf8 => true,
        DataTypeView::Date32 => true,
        DataTypeView::Date64 => true,
        DataTypeView::Time32(unit) => unit == TimeUnit::Second || unit == TimeUnit::Millisecond,
        DataTypeView::Time64(unit) => unit == TimeUnit::Microsecond || unit == TimeUnit::Nanosecond,
        DataTypeView::Timestamp(_, _) => true,
        DataTypeView::Interval(_) => true,
        DataTypeView::Duration(_) => true,
        DataTypeView::Struct(fields) => all_supported(fields),
        _ => false,
    }
}

/// Whether the factory has a builder for the declared type of each field.
pub open spec fn all_supported(fields: Seq<FieldView>) -> bool
    decreases fields,
{
    if fields.len() == 0 {
        true
    } else {
        all_supported(fields.drop_last()) && supported(fields.last().data_type)
    }
}

/// The type of the arrays of the builder that the factory makes for a
/// declared type: the declared type, a timestamp without its time zone.
pub open spec fn built_type(data_type: DataTypeView) -> DataTypeView {
    match data_type {
        DataTypeView::Timestamp(unit, _) => DataTypeView::Timestamp(unit, None),
        _ => data_type,
    }
}

/// The array that a builder newly made for `data_type`, with room for
/// `capacity` slots, builds: an array of no slot of the type asked for, with
/// the buffers that the kind of builder starts from; for a struct, with such
/// an array for each field as a child.
pub open spec fn new_built(data_type: DataTypeView, capacity: nat) -> ArrayDataView
    decreases data_type,
{
    match data_type {
        DataTypeView::Boolean => flat_array(
            DataTypeView::Boolean,
            pack_bits(Seq::empty(), spec_ceil8(capacity)),
            Seq::empty(),
            spec_ceil8(capacity),
        ),
        DataTypeView::Binary => var_array(
            DataTypeView::Binary,
            encode_all(seq![zero_value::<i32>()]),
            Seq::empty(),
            Seq::empty(),
            0,
        ),
        DataTypeView::Utf8 => var_array(
            DataTypeView::Utf8,
            encode_all(seq![zero_value::<i32>()]),
            Seq::empty(),
            Seq::empty(),
            0,
        ),
        DataTypeView::FixedSizeBinary(_) => fixed_array(data_type, Seq::empty(), Seq::empty(), 0),
        DataTypeView::Decimal(_, _) => fixed_array(data_type, Seq::empty(), Seq::empty(), 0),
        DataTypeView::Struct(fields) => ArrayDataView {
            data_type,
            len: 0,
            null_count: 0,
            offset: 0,
            buffers: Seq::empty(),
            child_data: new_children(fields, capacity),
            null_bitmap: None,
        },
        _ => flat_array(built_type(data_type), Seq::empty(), Seq::empty(), 0),
    }
}

/// The arrays that builders newly made for the fields build.
pub open spec fn new_children(fields: Seq<FieldView>, capacity: nat) -> Seq<ArrayDataView>
    decreases fields,
{
    if fields.len() == 0 {
        Seq::empty()
    } else {
        new_children(fields.drop_last(), capacity).push(
            new_built(fields.last().data_type, capacity),
        )
    }
}

/// The arrays that builders newly made for the fields build, one for each
/// field.
pub proof fn lemma_new_children(fields: Seq<FieldView>, capacity: nat)
    ensures
        new_children(fields, capacity).len() == fields.len(),
        forall|i: int|
            0 <= i < fields.len() ==> #[trigger] new_children(fields, capacity)[i] == new_built(
                fields[i].data_type,
                capacity,
            ),
    decreases fields.len(),
{
    if fields.len() > 0 {
        lemma_new_children(fields.drop_last(), capacity);
    }
}

/// Whether `b` has the room that the factory gives a builder made with room
/// for `capacity` slots, where the builder tells its room: a builder of
/// booleans has room for the bits rounded up to whole bytes, a builder of
/// primitive values has room for the values and no bitmap yet, the room of
/// both rounded up to a multiple of 64 bytes.
pub open spec fn made_with_room(b: AnyBuilder, capacity: nat) -> bool {
    match b {
        AnyBuilder::Boolean(x) => x.byte_capacity() == spec_round64(spec_ceil8(capacity)),
        AnyBuilder::Int8(x) => !x.has_bitmap() && x.byte_capacity() == spec_round64(capacity * 1),
        AnyBuilder::Int16(x) => !x.has_bitmap() && x.byte_capacity() == spec_round64(capacity * 2),
        AnyBuilder::Int32(x) => !x.has_bitmap() && x.byte_capacity() == spec_round64(capacity * 4),
        AnyBuilder::Int64(x) => !x.has_bitmap() && x.byte_capacity() == spec_round64(capacity * 8),
        AnyBuilder::UInt8(x) => !x.has_bitmap() && x.byte_capacity() == spec_round64(capacity * 1),
        AnyBuilder::UInt16(x) => !x.has_bitmap() && x.byte_capacity() == spec_round64(capacity * 2),
        AnyBuilder::UInt32(x) => !x.has_bitmap() && x.byte_capacity() == spec_round64(capacity * 4),
        AnyBuilder::UInt64(x) => !x.has_bitmap() && x.byte_capacity() == spec_round64(capacity * 8),
        AnyBuilder::Float32(x) => !x.has_bitmap() && x.byte_capacity() == spec_round64(capacity * 4),
        AnyBuilder::Float64(x) => !x.has_bitmap() && x.byte_capacity() == spec_round64(capacity * 8),
        AnyBuilder::Date32(x) => !x.has_bitmap() && x.byte_capacity() == spec_round64(capacity * 4),
        AnyBuilder::Date64(x) => !x.has_bitmap() && x.byte_capacity() == spec_round64(capacity * 8),
        AnyBuilder::Time32Second(x) => !x.has_bitmap() && x.byte_capacity() == spec_round64(capacity * 4),
        AnyBuilder::Time32Millisecond(x) => !x.has_bitmap() && x.byte_capacity() == spec_round64(capacity * 4),
        AnyBuilder::Time64Microsecond(x) => !x.has_bitmap() && x.byte_capacity() == spec_round64(capacity * 8),
        AnyBuilder::Time64Nanosecond(x) => !x.has_bitmap() && x.byte_capacity() == spec_round64(capacity * 8),
        AnyBuilder::TimestampSecond(x) => !x.has_bitmap() && x.byte_capacity() == spec_round64(capacity * 8),
        AnyBuilder::TimestampMillisecond(x) => !x.has_bitmap() && x.byte_capacity() == spec_round64(capacity * 8),
        AnyBuilder::TimestampMicrosecond(x) => !x.has_bitmap() && x.byte_capacity() == spec_round64(capacity * 8),
        AnyBuilder::TimestampNanosecond(x) => !x.has_bitmap() && x.byte_capacity() == spec_round64(capacity * 8),
        AnyBuilder::IntervalYearMonth(x) => !x.has_bitmap() && x.byte_capacity() == spec_round64(capacity * 4),
        AnyBuilder::IntervalDayTime(x) => !x.has_bitmap() && x.byte_capacity() == spec_round64(capacity * 8),
        AnyBuilder::DurationSecond(x) => !x.has_bitmap() && x.byte_capacity() == spec_round64(capacity * 8),
        AnyBuilder::DurationMillisecond(x) => !x.has_bitmap() && x.byte_capacity() == spec_round64(capacity * 8),
        AnyBuilder::DurationMicrosecond(x) => !x.has_bitmap() && x.byte_capacity() == spec_round64(capacity * 8),
        AnyBuilder::DurationNanosecond(x) => !x.has_bitmap() && x.byte_capacity() == spec_round64(capacity * 8),
        _ => true,
    }
}

/// Whether `b` is a builder as the factory makes it for `data_type` with
/// room for `capacity` slots: well-formed, empty, of the kind that the type
/// asks for, with the room asked for, and so for each field of a struct.
pub open spec fn made_for(b: AnyBuilder, data_type: DataTypeView, capacity: nat) -> bool
    decreases data_type,
{
    &&& any_wf(b)
    &&& any_len(b) == 0
    &&& any_can_finish(b)
    &&& any_built(b) == new_built(data_type, capacity)
    &&& made_with_room(b, capacity)
    &&& match data_type {
        DataTypeView::Struct(fields) => match b {
            AnyBuilder::Struct(s) => children_made_for(s.children(), fields, capacity),
            _ => false,
        },
        _ => true,
    }
}

/// Whether each builder of `children` is as the factory makes it for the
/// field at its place.
pub open spec fn children_made_for(
    children: Seq<AnyBuilder>,
    fields: Seq<FieldView>,
    capacity: nat,
) -> bool
    decreases fields,
{
    if children.len() != fields.len() {
        false
    } else if fields.len() == 0 {
        true
    } else {
        children_made_for(children.drop_last(), fields.drop_last(), capacity) && made_for(
            children.last(),
            fields.last().data_type,
            capacity,
        )
    }
}

/// The builders are each made for the field at its place iff every one of
/// them is.
pub proof fn lemma_children_made_for(
    children: Seq<AnyBuilder>,
    fields: Seq<FieldView>,
    capacity: nat,
)
    ensures
        children_made_for(children, fields, capacity) <==> (children.len() == fields.len()
            && forall|i: int|
            0 <= i < fields.len() ==> made_for(#[trigger] children[i], fields[i].data_type, capacity)),
    decreases fields.len(),
{
    if children.len() == fields.len() && fields.len() > 0 {
        let c0 = children.drop_last();
        let f0 = fields.drop_last();
        lemma_children_made_for(c0, f0, capacity);
        if children_made_for(children, fields, capacity) {
            assert forall|i: int| 0 <= i < fields.len() implies made_for(
                #[trigger] children[i],
                fields[i].data_type,
                capacity,
            ) by {
                if i < f0.len() {
                    assert(c0[i] == children[i] && f0[i] == fields[i]);
                }
            }
        } else if forall|i: int|
            0 <= i < fields.len() ==> made_for(#[trigger] children[i], fields[i].data_type, capacity) {
            assert forall|i: int| 0 <= i < f0.len() implies made_for(
                #[trigger] c0[i],
                f0[i].data_type,
                capacity,
            ) by {
                assert(c0[i] == children[i] && f0[i] == fields[i]);
            }
            assert(made_for(
                children[children.len() - 1],
                fields[fields.len() - 1].data_type,
                capacity,
            ));
        }
    }
}

/// Whether the factory has a builder for the declared type.
pub fn is_supported(data_type: &DataType) -> (r: bool)
    ensures
        r == supported(data_type@),
    decreases data_type,
{
    match data_type {
        DataType::Boolean => true,
        DataType::Int8 => true,
        DataType::Int16 => true,
        DataType::Int32 => true,
        DataType::Int64 => true,
        DataType::UInt8 => true,
        DataType::UInt16 => true,
        DataType::UInt32 => true,
        DataType::UInt64 => true,
        DataType::Float32 => true,
        DataType::Float64 => true,
        DataType::Binary => true,
        DataType::FixedSizeBinary(_) => true,
        DataType::Decimal(_, _) => true,
        DataType::Utf8 => true,
        DataType::Date32 => true,
        DataType::Date64 => true,
        DataType::Time32(unit) => match unit {
            TimeUnit::Second => true,
            TimeUnit::Millisecond => true,
            _ => false,
        },
        DataType::Time64(unit) => match unit {
            TimeUnit::Microsecond => true,
            TimeUnit::Nanosecond => true,
            _ => false,
        },
        DataType::Timestamp(_, _) => true,
        DataType::Interval(_) => true,
        DataType::Duration(_) => true,
        DataType::Struct(fields) => are_supported(fields),
        _ => false,
    }
}

/// Whether the factory has a builder for the declared type of each field.
pub fn are_supported(fields: &Vec<Field>) -> (r: bool)
    ensures
        r == all_supported(fields_view(fields@)),
    decreases fields,
{
    let mut i: usize = 0;
    proof {
        lemma_all_supported(fields_view(fields@));
        crate::datatypes::lemma_fields_view(fields@);
    }
    while i < fields.len()
        invariant
            i <= fields@.len(),
            forall|k: int| 0 <= k < i ==> supported(#[trigger] fields@[k]@.data_type),
            all_supported(fields_view(fields@)) <==> forall|k: int|
                0 <= k < fields@.len() ==> supported(#[trigger] fields_view(fields@)[k].data_type),
            fields_view(fields@).len() == fields@.len(),
            forall|k: int|
                0 <= k < fields@.len() ==> #[trigger] fields_view(fields@)[k] == fields@[k]@,
        decreases fields@.len() - i,
    {
        if !is_supported(&fields[i].data_type) {
            proof {
                assert(!supported(fields_view(fields@)[i as int].data_type));
            }
            return false;
        }
        i = i + 1;
    }
    true
}

/// The fields are all supported iff each is.
pub proof fn lemma_all_supported(fields: Seq<FieldView>)
    ensures
        all_supported(fields) <==> forall|k: int|
            0 <= k < fields.len() ==> supported(#[trigger] fields[k].data_type),
    decreases fields.len(),
{
    if fields.len() > 0 {
        let rest = fields.drop_last();
        lemma_all_supported(rest);
        if all_supported(fields) {
            assert forall|k: int| 0 <= k < fields.len() implies supported(
                #[trigger] fields[k].data_type,
            ) by {
                if k < rest.len() {
                    assert(rest[k] == fields[k]);
                }
            }
        } else if forall|k: int| 0 <= k < fields.len() ==> supported(#[trigger] fields[k].data_type) {
            assert forall|k: int| 0 <= k < rest.len() implies supported(
                #[trigger] rest[k].data_type,
            ) by {
                assert(rest[k] == fields[k]);
            }
            assert(supported(fields[fields.len() - 1].data_type));
        }
    }
}

/// Returns a new builder of `capacity` of the kind that `datatype` asks
/// for. The declared type must be one that the factory has a builder for.
pub fn make_builder(datatype: &DataType, capacity: usize) -> (r: AnyBuilder)
    requires
        supported(datatype@),
        capacity <= MAX_SLOTS,
    ensures
        made_for(r, datatype@, capacity as nat),
    decreases datatype, 1nat,
{
    match datatype {
        DataType::Boolean => AnyBuilder::Boolean(BooleanBuilder::new(capacity)),
        DataType::Int8 => AnyBuilder::Int8(PrimitiveBuilder::<Int8Type>::new(capacity)),
        DataType::Int16 => AnyBuilder::Int16(PrimitiveBuilder::<Int16Type>::new(capacity)),
        DataType::Int32 => AnyBuilder::Int32(PrimitiveBuilder::<Int32Type>::new(capacity)),
        DataType::Int64 => AnyBuilder::Int64(PrimitiveBuilder::<Int64Type>::new(capacity)),
        DataType::UInt8 => AnyBuilder::UInt8(PrimitiveBuilder::<UInt8Type>::new(capacity)),
        DataType::UInt16 => AnyBuilder::UInt16(PrimitiveBuilder::<UInt16Type>::new(capacity)),
        DataType::UInt32 => AnyBuilder::UInt32(PrimitiveBuilder::<UInt32Type>::new(capacity)),
        DataType::UInt64 => AnyBuilder::UInt64(PrimitiveBuilder::<UInt64Type>::new(capacity)),
        DataType::Float32 => AnyBuilder::Float32(PrimitiveBuilder::<Float32Type>::new(capacity)),
        DataType::Float64 => AnyBuilder::Float64(PrimitiveBuilder::<Float64Type>::new(capacity)),
        DataType::Binary => AnyBuilder::Binary(GenericBinaryBuilder::<i32>::new(capacity)),
        DataType::FixedSizeBinary(len) => AnyBuilder::FixedSizeBinary(
            FixedSizeBinaryBuilder::new(capacity, *len),
        ),
        DataType::Decimal(precision, scale) => AnyBuilder::Decimal(
            DecimalBuilder::new(capacity, *precision, *scale),
        ),
        DataType::Utf8 => AnyBuilder::Utf8(GenericStringBuilder::<i32>::new(capacity)),
        DataType::Date32 => AnyBuilder::Date32(PrimitiveBuilder::<Date32Type>::new(capacity)),
        DataType::Date64 => AnyBuilder::Date64(PrimitiveBuilder::<Date64Type>::new(capacity)),
        DataType::Time32(unit) => match unit {
            TimeUnit::Second => AnyBuilder::Time32Second(
                PrimitiveBuilder::<Time32SecondType>::new(capacity),
            ),
            _ => AnyBuilder::Time32Millisecond(
                PrimitiveBuilder::<Time32MillisecondType>::new(capacity),
            ),
        },
        DataType::Time64(unit) => match unit {
            TimeUnit::Microsecond => AnyBuilder::Time64Microsecond(
                PrimitiveBuilder::<Time64MicrosecondType>::new(capacity),
            ),
            _ => AnyBuilder::Time64Nanosecond(
                PrimitiveBuilder::<Time64NanosecondType>::new(capacity),
            ),
        },
        DataType::Timestamp(unit, _) => match unit {
            TimeUnit::Second => AnyBuilder::TimestampSecond(
                PrimitiveBuilder::<TimestampSecondType>::new(capacity),
            ),
            TimeUnit::Millisecond => AnyBuilder::TimestampMillisecond(
                PrimitiveBuilder::<TimestampMillisecondType>::new(capacity),
            ),
            TimeUnit::Microsecond => AnyBuilder::TimestampMicrosecond(
                PrimitiveBuilder::<TimestampMicrosecondType>::new(capacity),
            ),
            TimeUnit::Nanosecond => AnyBuilder::TimestampNanosecond(
                PrimitiveBuilder::<TimestampNanosecondType>::new(capacity),
            ),
        },
        DataType::Interval(unit) => match unit {
            IntervalUnit::YearMonth => AnyBuilder::IntervalYearMonth(
                PrimitiveBuilder::<IntervalYearMonthType>::new(capacity),
            ),
            IntervalUnit::DayTime => AnyBuilder::IntervalDayTime(
                PrimitiveBuilder::<IntervalDayTimeType>::new(capacity),
            ),
        },
        DataType::Duration(unit) => match unit {
            TimeUnit::Second => AnyBuilder::DurationSecond(
                PrimitiveBuilder::<DurationSecondType>::new(capacity),
            ),
            TimeUnit::Millisecond => AnyBuilder::DurationMillisecond(
                PrimitiveBuilder::<DurationMillisecondType>::new(capacity),
            ),
            TimeUnit::Microsecond => AnyBuilder::DurationMicrosecond(
                PrimitiveBuilder::<DurationMicrosecondType>::new(capacity),
            ),
            TimeUnit::Nanosecond => AnyBuilder::DurationNanosecond(
                PrimitiveBuilder::<DurationNanosecondType>::new(capacity),
            ),
        },
        DataType::Struct(fields) => {
            let builders = builders_for(fields, capacity);
            let copy = clone_fields(fields);
            let s = StructBuilder::new(copy, builders);
            proof {
                s.lemma_wf();
                lemma_children(s.field_builders@);
                crate::datatypes::lemma_fields_view(fields@);
                lemma_new_children(fields_view(fields@), capacity as nat);
                assert forall|i: int| 0 <= i < s.children().len() implies any_can_finish(
                    #[trigger] s.children()[i],
                ) && s.built().child_data[i] == new_children(
                    fields_view(fields@),
                    capacity as nat,
                )[i] by {
                    assert(made_for(builders@[i], fields@[i]@.data_type, capacity as nat));
                }
                assert(s.built().child_data =~= new_children(
                    fields_view(fields@),
                    capacity as nat,
                ));
                crate::bit_util::lemma_count_true_bounds(s.validity());
                lemma_children_made_for(s.children(), fields_view(fields@), capacity as nat);
                assert forall|i: int| 0 <= i < fields@.len() implies made_for(
                    #[trigger] s.children()[i],
                    fields_view(fields@)[i].data_type,
                    capacity as nat,
                ) by {
                    assert(made_for(builders@[i], fields@[i]@.data_type, capacity as nat));
                }
            }
            AnyBuilder::Struct(s)
        },
        _ => AnyBuilder::Boolean(BooleanBuilder::new(capacity)),
    }
}

/// A new builder of `capacity` for each field, of the kind that the field's
/// declared type asks for.
fn builders_for(fields: &Vec<Field>, capacity: usize) -> (r: Vec<AnyBuilder>)
    requires
        all_supported(fields_view(fields@)),
        capacity <= MAX_SLOTS,
    ensures
        r@.len() == fields@.len(),
        forall|i: int|
            0 <= i < fields@.len() ==> made_for(
                #[trigger] r@[i],
                fields@[i]@.data_type,
                capacity as nat,
            ),
    decreases fields, 0nat,
{
    let mut builders: Vec<AnyBuilder> = Vec::new();
    let mut i: usize = 0;
    proof {
        lemma_all_supported(fields_view(fields@));
        crate::datatypes::lemma_fields_view(fields@);
    }
    while i < fields.len()
        invariant
            i <= fields@.len(),
            capacity <= MAX_SLOTS,
            builders@.len() == i,
            forall|k: int|
                0 <= k < i ==> made_for(
                    #[trigger] builders@[k],
                    fields@[k]@.data_type,
                    capacity as nat,
                ),
            forall|k: int|
                0 <= k < fields@.len() ==> supported(#[trigger] fields_view(fields@)[k].data_type),
            fields_view(fields@).len() == fields@.len(),
            forall|k: int|
                0 <= k < fields@.len() ==> #[trigger] fields_view(fields@)[k] == fields@[k]@,
        decreases fields@.len() - i,
    {
        proof {
            assert(supported(fields_view(fields@)[i as int].data_type));
        }
        let b = make_builder(&fields[i].data_type, capacity);
        builders.push(b);
        i = i + 1;
    }
    builders
}

} // verus!
