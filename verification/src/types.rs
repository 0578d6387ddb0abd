//! The primitive types: each pairs a declared type with the machine type of
//! its values.

use crate::datatypes::{primitive_width, DataType, DataTypeView, IntervalUnit, TimeUnit};
use crate::native::ArrowNativeType;
use crate::primitive_builder::PrimitiveBuilder;
use crate::struct_builder::AnyBuilder;
use vstd::prelude::*;

verus! {

/// A primitive type: fixed-width values of one machine type under one
/// declared type.
pub trait ArrowPrimitiveType: Sized {
    /// The machine type of the values.
    type Native: ArrowNativeType;

    /// The declared type.
    spec fn spec_data_type() -> DataTypeView;

    /// The declared type is a primitive one, as wide as the machine type.
    proof fn lemma_width()
        ensures
            primitive_width(Self::spec_data_type()) == Some(Self::Native::byte_width()),
    ;

    /// The declared type.
    fn data_type() -> (r: DataType)
        ensures
            r@ == Self::spec_data_type(),
    ;

    /// A builder of this type as a builder of any kind.
    spec fn spec_erase(builder: PrimitiveBuilder<Self>) -> AnyBuilder;

    /// The builder of this type that `any` holds, if it holds one.
    spec fn spec_downcast(any: AnyBuilder) -> Option<PrimitiveBuilder<Self>>;

    /// Wraps a builder of this type as a builder of any kind.
    fn erase(builder: PrimitiveBuilder<Self>) -> (r: AnyBuilder)
        ensures
            r == Self::spec_erase(builder),
    ;

    /// The builder of this type that `any` holds, if it holds one.
    fn downcast_ref(any: &AnyBuilder) -> (r: Option<&PrimitiveBuilder<Self>>)
        ensures
            match r {
                Some(b) => Self::spec_downcast(*any) == Some(*b) && *any == Self::spec_erase(*b),
                None => Self::spec_downcast(*any) is None,
            },
    ;

    /// The builder of this type that `any` holds, if it holds one, to be
    /// changed in place.
    fn downcast_mut(any: &mut AnyBuilder) -> (r: Option<&mut PrimitiveBuilder<Self>>)
        ensures
            match r {
                Some(b) => Self::spec_downcast(*old(any)) == Some(*b) && *old(any)
                    == Self::spec_erase(*b) && *final(any) == Self::spec_erase(*final(b)),
                None => Self::spec_downcast(*old(any)) is None && *final(any) == *old(any),
            },
    ;
}

/// A primitive type whose values can be dictionary keys: an integer type.
pub trait ArrowDictionaryKeyType: ArrowPrimitiveType {

}

/// The type of 8-bit signed integers.
#[derive(Debug, PartialEq, Eq)]
pub struct Int8Type;

impl ArrowPrimitiveType for Int8Type {
    type Native = i8;

    open spec fn spec_data_type() -> DataTypeView {
        DataTypeView::Int8
    }

    proof fn lemma_width() {
        assert(i8::byte_width() == 1);
    }

    fn data_type() -> (r: DataType) {
        DataType::Int8
    }

    open spec fn spec_erase(builder: PrimitiveBuilder<Self>) -> AnyBuilder {
        AnyBuilder::Int8(builder)
    }

    open spec fn spec_downcast(any: AnyBuilder) -> Option<PrimitiveBuilder<Self>> {
        match any {
            AnyBuilder::Int8(b) => Some(b),
            _ => None,
        }
    }

    fn erase(builder: PrimitiveBuilder<Self>) -> (r: AnyBuilder) {
        AnyBuilder::Int8(builder)
    }

    fn downcast_ref(any: &AnyBuilder) -> (r: Option<&PrimitiveBuilder<Self>>) {
        match any {
            AnyBuilder::Int8(b) => Some(b),
            _ => None,
        }
    }

    fn downcast_mut(any: &mut AnyBuilder) -> (r: Option<&mut PrimitiveBuilder<Self>>) {
        match any {
            AnyBuilder::Int8(b) => Some(b),
            _ => None,
        }
    }
}

/// The type of 16-bit signed integers.
#[derive(Debug, PartialEq, Eq)]
pub struct Int16Type;

impl ArrowPrimitiveType for Int16Type {
    type Native = i16;

    open spec fn spec_data_type() -> DataTypeView {
        DataTypeView::Int16
    }

    proof fn lemma_width() {
        assert(i16::byte_width() == 2);
    }

    fn data_type() -> (r: DataType) {
        DataType::Int16
    }

    open spec fn spec_erase(builder: PrimitiveBuilder<Self>) -> AnyBuilder {
        AnyBuilder::Int16(builder)
    }

    open spec fn spec_downcast(any: AnyBuilder) -> Option<PrimitiveBuilder<Self>> {
        match any {
            AnyBuilder::Int16(b) => Some(b),
            _ => None,
        }
    }

    fn erase(builder: PrimitiveBuilder<Self>) -> (r: AnyBuilder) {
        AnyBuilder::Int16(builder)
    }

    fn downcast_ref(any: &AnyBuilder) -> (r: Option<&PrimitiveBuilder<Self>>) {
        match any {
            AnyBuilder::Int16(b) => Some(b),
            _ => None,
        }
    }

    fn downcast_mut(any: &mut AnyBuilder) -> (r: Option<&mut PrimitiveBuilder<Self>>) {
        match any {
            AnyBuilder::Int16(b) => Some(b),
            _ => None,
        }
    }
}

/// The type of 32-bit signed integers.
#[derive(Debug, PartialEq, Eq)]
pub struct Int32Type;

impl ArrowPrimitiveType for Int32Type {
    type Native = i32;

    open spec fn spec_data_type() -> DataTypeView {
        DataTypeView::Int32
    }

    proof fn lemma_width() {
        assert(i32::byte_width() == 4);
    }

    fn data_type() -> (r: DataType) {
        DataType::Int32
    }

    open spec fn spec_erase(builder: PrimitiveBuilder<Self>) -> AnyBuilder {
        AnyBuilder::Int32(builder)
    }

    open spec fn spec_downcast(any: AnyBuilder) -> Option<PrimitiveBuilder<Self>> {
        match any {
            AnyBuilder::Int32(b) => Some(b),
            _ => None,
        }
    }

    fn erase(builder: PrimitiveBuilder<Self>) -> (r: AnyBuilder) {
        AnyBuilder::Int32(builder)
    }

    fn downcast_ref(any: &AnyBuilder) -> (r: Option<&PrimitiveBuilder<Self>>) {
        match any {
            AnyBuilder::Int32(b) => Some(b),
            _ => None,
        }
    }

    fn downcast_mut(any: &mut AnyBuilder) -> (r: Option<&mut PrimitiveBuilder<Self>>) {
        match any {
            AnyBuilder::Int32(b) => Some(b),
            _ => None,
        }
    }
}

/// The type of 64-bit signed integers.
#[derive(Debug, PartialEq, Eq)]
pub struct Int64Type;

impl ArrowPrimitiveType for Int64Type {
    type Native = i64;

    open spec fn spec_data_type() -> DataTypeView {
        DataTypeView::Int64
    }

    proof fn lemma_width() {
        assert(i64::byte_width() == 8);
    }

    fn data_type() -> (r: DataType) {
        DataType::Int64
    }

    open spec fn spec_erase(builder: PrimitiveBuilder<Self>) -> AnyBuilder {
        AnyBuilder::Int64(builder)
    }

    open spec fn spec_downcast(any: AnyBuilder) -> Option<PrimitiveBuilder<Self>> {
        match any {
            AnyBuilder::Int64(b) => Some(b),
            _ => None,
        }
    }

    fn erase(builder: PrimitiveBuilder<Self>) -> (r: AnyBuilder) {
        AnyBuilder::Int64(builder)
    }

    fn downcast_ref(any: &AnyBuilder) -> (r: Option<&PrimitiveBuilder<Self>>) {
        match any {
            AnyBuilder::Int64(b) => Some(b),
            _ => None,
        }
    }

    fn downcast_mut(any: &mut AnyBuilder) -> (r: Option<&mut PrimitiveBuilder<Self>>) {
        match any {
            AnyBuilder::Int64(b) => Some(b),
            _ => None,
        }
    }
}

/// The type of 8-bit unsigned integers.
#[derive(Debug, PartialEq, Eq)]
pub struct UInt8Type;

impl ArrowPrimitiveType for UInt8Type {
    type Native = u8;

    open spec fn spec_data_type() -> DataTypeView {
        DataTypeView::UInt8
    }

    proof fn lemma_width() {
        assert(u8::byte_width() == 1);
    }

    fn data_type() -> (r: DataType) {
        DataType::UInt8
    }

    open spec fn spec_erase(builder: PrimitiveBuilder<Self>) -> AnyBuilder {
        AnyBuilder::UInt8(builder)
    }

    open spec fn spec_downcast(any: AnyBuilder) -> Option<PrimitiveBuilder<Self>> {
        match any {
            AnyBuilder::UInt8(b) => Some(b),
            _ => None,
        }
    }

    fn erase(builder: PrimitiveBuilder<Self>) -> (r: AnyBuilder) {
        AnyBuilder::UInt8(builder)
    }

    fn downcast_ref(any: &AnyBuilder) -> (r: Option<&PrimitiveBuilder<Self>>) {
        match any {
            AnyBuilder::UInt8(b) => Some(b),
            _ => None,
        }
    }

    fn downcast_mut(any: &mut AnyBuilder) -> (r: Option<&mut PrimitiveBuilder<Self>>) {
        match any {
            AnyBuilder::UInt8(b) => Some(b),
            _ => None,
        }
    }
}

/// The type of 16-bit unsigned integers.
#[derive(Debug, PartialEq, Eq)]
pub struct UInt16Type;

impl ArrowPrimitiveType for UInt16Type {
    type Native = u16;

    open spec fn spec_data_type() -> DataTypeView {
        DataTypeView::UInt16
    }

    proof fn lemma_width() {
        assert(u16::byte_width() == 2);
    }

    fn data_type() -> (r: DataType) {
        DataType::UInt16
    }

    open spec fn spec_erase(builder: PrimitiveBuilder<Self>) -> AnyBuilder {
        AnyBuilder::UInt16(builder)
    }

    open spec fn spec_downcast(any: AnyBuilder) -> Option<PrimitiveBuilder<Self>> {
        match any {
            AnyBuilder::UInt16(b) => Some(b),
            _ => None,
        }
    }

    fn erase(builder: PrimitiveBuilder<Self>) -> (r: AnyBuilder) {
        AnyBuilder::UInt16(builder)
    }

    fn downcast_ref(any: &AnyBuilder) -> (r: Option<&PrimitiveBuilder<Self>>) {
        match any {
            AnyBuilder::UInt16(b) => Some(b),
            _ => None,
        }
    }

    fn downcast_mut(any: &mut AnyBuilder) -> (r: Option<&mut PrimitiveBuilder<Self>>) {
        match any {
            AnyBuilder::UInt16(b) => Some(b),
            _ => None,
        }
    }
}

/// The type of 32-bit unsigned integers.
#[derive(Debug, PartialEq, Eq)]
pub struct UInt32Type;

impl ArrowPrimitiveType for UInt32Type {
    type Native = u32;

    open spec fn spec_data_type() -> DataTypeView {
        DataTypeView::UInt32
    }

    proof fn lemma_width() {
        assert(u32::byte_width() == 4);
    }

    fn data_type() -> (r: DataType) {
        DataType::UInt32
    }

    open spec fn spec_erase(builder: PrimitiveBuilder<Self>) -> AnyBuilder {
        AnyBuilder::UInt32(builder)
    }

    open spec fn spec_downcast(any: AnyBuilder) -> Option<PrimitiveBuilder<Self>> {
        match any {
            AnyBuilder::UInt32(b) => Some(b),
            _ => None,
        }
    }

    fn erase(builder: PrimitiveBuilder<Self>) -> (r: AnyBuilder) {
        AnyBuilder::UInt32(builder)
    }

    fn downcast_ref(any: &AnyBuilder) -> (r: Option<&PrimitiveBuilder<Self>>) {
        match any {
            AnyBuilder::UInt32(b) => Some(b),
            _ => None,
        }
    }

    fn downcast_mut(any: &mut AnyBuilder) -> (r: Option<&mut PrimitiveBuilder<Self>>) {
        match any {
            AnyBuilder::UInt32(b) => Some(b),
            _ => None,
        }
    }
}

/// The type of 64-bit unsigned integers.
#[derive(Debug, PartialEq, Eq)]
pub struct UInt64Type;

impl ArrowPrimitiveType for UInt64Type {
    type Native = u64;

    open spec fn spec_data_type() -> DataTypeView {
        DataTypeView::UInt64
    }

    proof fn lemma_width() {
        assert(u64::byte_width() == 8);
    }

    fn data_type() -> (r: DataType) {
        DataType::UInt64
    }

    open spec fn spec_erase(builder: PrimitiveBuilder<Self>) -> AnyBuilder {
        AnyBuilder::UInt64(builder)
    }

    open spec fn spec_downcast(any: AnyBuilder) -> Option<PrimitiveBuilder<Self>> {
        match any {
            AnyBuilder::UInt64(b) => Some(b),
            _ => None,
        }
    }

    fn erase(builder: PrimitiveBuilder<Self>) -> (r: AnyBuilder) {
        AnyBuilder::UInt64(builder)
    }

    fn downcast_ref(any: &AnyBuilder) -> (r: Option<&PrimitiveBuilder<Self>>) {
        match any {
            AnyBuilder::UInt64(b) => Some(b),
            _ => None,
        }
    }

    fn downcast_mut(any: &mut AnyBuilder) -> (r: Option<&mut PrimitiveBuilder<Self>>) {
        match any {
            AnyBuilder::UInt64(b) => Some(b),
            _ => None,
        }
    }
}

/// The type of single-precision numbers, held as their IEEE 754 bit patterns.
#[derive(Debug, PartialEq, Eq)]
pub struct Float32Type;

impl ArrowPrimitiveType for Float32Type {
    type Native = u32;

    open spec fn spec_data_type() -> DataTypeView {
        DataTypeView::Float32
    }

    proof fn lemma_width() {
        assert(u32::byte_width() == 4);
    }

    fn data_type() -> (r: DataType) {
        DataType::Float32
    }

    open spec fn spec_erase(builder: PrimitiveBuilder<Self>) -> AnyBuilder {
        AnyBuilder::Float32(builder)
    }

    open spec fn spec_downcast(any: AnyBuilder) -> Option<PrimitiveBuilder<Self>> {
        match any {
            AnyBuilder::Float32(b) => Some(b),
            _ => None,
        }
    }

    fn erase(builder: PrimitiveBuilder<Self>) -> (r: AnyBuilder) {
        AnyBuilder::Float32(builder)
    }

    fn downcast_ref(any: &AnyBuilder) -> (r: Option<&PrimitiveBuilder<Self>>) {
        match any {
            AnyBuilder::Float32(b) => Some(b),
            _ => None,
        }
    }

    fn downcast_mut(any: &mut AnyBuilder) -> (r: Option<&mut PrimitiveBuilder<Self>>) {
        match any {
            AnyBuilder::Float32(b) => Some(b),
            _ => None,
        }
    }
}

/// The type of double-precision numbers, held as their IEEE 754 bit patterns.
#[derive(Debug, PartialEq, Eq)]
pub struct Float64Type;

impl ArrowPrimitiveType for Float64Type {
    type Native = u64;

    open spec fn spec_data_type() -> DataTypeView {
        DataTypeView::Float64
    }

    proof fn lemma_width() {
        assert(u64::byte_width() == 8);
    }

    fn data_type() -> (r: DataType) {
        DataType::Float64
    }

    open spec fn spec_erase(builder: PrimitiveBuilder<Self>) -> AnyBuilder {
        AnyBuilder::Float64(builder)
    }

    open spec fn spec_downcast(any: AnyBuilder) -> Option<PrimitiveBuilder<Self>> {
        match any {
            AnyBuilder::Float64(b) => Some(b),
            _ => None,
        }
    }

    fn erase(builder: PrimitiveBuilder<Self>) -> (r: AnyBuilder) {
        AnyBuilder::Float64(builder)
    }

    fn downcast_ref(any: &AnyBuilder) -> (r: Option<&PrimitiveBuilder<Self>>) {
        match any {
            AnyBuilder::Float64(b) => Some(b),
            _ => None,
        }
    }

    fn downcast_mut(any: &mut AnyBuilder) -> (r: Option<&mut PrimitiveBuilder<Self>>) {
        match any {
            AnyBuilder::Float64(b) => Some(b),
            _ => None,
        }
    }
}

/// The type of days since the epoch.
#[derive(Debug, PartialEq, Eq)]
pub struct Date32Type;

impl ArrowPrimitiveType for Date32Type {
    type Native = i32;

    open spec fn spec_data_type() -> DataTypeView {
        DataTypeView::Date32
    }

    proof fn lemma_width() {
        assert(i32::byte_width() == 4);
    }

    fn data_type() -> (r: DataType) {
        DataType::Date32
    }

    open spec fn spec_erase(builder: PrimitiveBuilder<Self>) -> AnyBuilder {
        AnyBuilder::Date32(builder)
    }

    open spec fn spec_downcast(any: AnyBuilder) -> Option<PrimitiveBuilder<Self>> {
        match any {
            AnyBuilder::Date32(b) => Some(b),
            _ => None,
        }
    }

    fn erase(builder: PrimitiveBuilder<Self>) -> (r: AnyBuilder) {
        AnyBuilder::Date32(builder)
    }

    fn downcast_ref(any: &AnyBuilder) -> (r: Option<&PrimitiveBuilder<Self>>) {
        match any {
            AnyBuilder::Date32(b) => Some(b),
            _ => None,
        }
    }

    fn downcast_mut(any: &mut AnyBuilder) -> (r: Option<&mut PrimitiveBuilder<Self>>) {
        match any {
            AnyBuilder::Date32(b) => Some(b),
            _ => None,
        }
    }
}

/// The type of milliseconds since the epoch.
#[derive(Debug, PartialEq, Eq)]
pub struct Date64Type;

impl ArrowPrimitiveType for Date64Type {
    type Native = i64;

    open spec fn spec_data_type() -> DataTypeView {
        DataTypeView::Date64
    }

    proof fn lemma_width() {
        assert(i64::byte_width() == 8);
    }

    fn data_type() -> (r: DataType) {
        DataType::Date64
    }

    open spec fn spec_erase(builder: PrimitiveBuilder<Self>) -> AnyBuilder {
        AnyBuilder::Date64(builder)
    }

    open spec fn spec_downcast(any: AnyBuilder) -> Option<PrimitiveBuilder<Self>> {
        match any {
            AnyBuilder::Date64(b) => Some(b),
            _ => None,
        }
    }

    fn erase(builder: PrimitiveBuilder<Self>) -> (r: AnyBuilder) {
        AnyBuilder::Date64(builder)
    }

    fn downcast_ref(any: &AnyBuilder) -> (r: Option<&PrimitiveBuilder<Self>>) {
        match any {
            AnyBuilder::Date64(b) => Some(b),
            _ => None,
        }
    }

    fn downcast_mut(any: &mut AnyBuilder) -> (r: Option<&mut PrimitiveBuilder<Self>>) {
        match any {
            AnyBuilder::Date64(b) => Some(b),
            _ => None,
        }
    }
}

/// The type of seconds since midnight.
#[derive(Debug, PartialEq, Eq)]
pub struct Time32SecondType;

impl ArrowPrimitiveType for Time32SecondType {
    type Native = i32;

    open spec fn spec_data_type() -> DataTypeView {
        DataTypeView::Time32(TimeUnit::Second)
    }

    proof fn lemma_width() {
        assert(i32::byte_width() == 4);
    }

    fn data_type() -> (r: DataType) {
        DataType::Time32(TimeUnit::Second)
    }

    open spec fn spec_erase(builder: PrimitiveBuilder<Self>) -> AnyBuilder {
        AnyBuilder::Time32Second(builder)
    }

    open spec fn spec_downcast(any: AnyBuilder) -> Option<PrimitiveBuilder<Self>> {
        match any {
            AnyBuilder::Time32Second(b) => Some(b),
            _ => None,
        }
    }

    fn erase(builder: PrimitiveBuilder<Self>) -> (r: AnyBuilder) {
        AnyBuilder::Time32Second(builder)
    }

    fn downcast_ref(any: &AnyBuilder) -> (r: Option<&PrimitiveBuilder<Self>>) {
        match any {
            AnyBuilder::Time32Second(b) => Some(b),
            _ => None,
        }
    }

    fn downcast_mut(any: &mut AnyBuilder) -> (r: Option<&mut PrimitiveBuilder<Self>>) {
        match any {
            AnyBuilder::Time32Second(b) => Some(b),
            _ => None,
        }
    }
}

/// The type of milliseconds since midnight.
#[derive(Debug, PartialEq, Eq)]
pub struct Time32MillisecondType;

impl ArrowPrimitiveType for Time32MillisecondType {
    type Native = i32;

    open spec fn spec_data_type() -> DataTypeView {
        DataTypeView::Time32(TimeUnit::Millisecond)
    }

    proof fn lemma_width() {
        assert(i32::byte_width() == 4);
    }

    fn data_type() -> (r: DataType) {
        DataType::Time32(TimeUnit::Millisecond)
    }

    open spec fn spec_erase(builder: PrimitiveBuilder<Self>) -> AnyBuilder {
        AnyBuilder::Time32Millisecond(builder)
    }

    open spec fn spec_downcast(any: AnyBuilder) -> Option<PrimitiveBuilder<Self>> {
        match any {
            AnyBuilder::Time32Millisecond(b) => Some(b),
            _ => None,
        }
    }

    fn erase(builder: PrimitiveBuilder<Self>) -> (r: AnyBuilder) {
        AnyBuilder::Time32Millisecond(builder)
    }

    fn downcast_ref(any: &AnyBuilder) -> (r: Option<&PrimitiveBuilder<Self>>) {
        match any {
            AnyBuilder::Time32Millisecond(b) => Some(b),
            _ => None,
        }
    }

    fn downcast_mut(any: &mut AnyBuilder) -> (r: Option<&mut PrimitiveBuilder<Self>>) {
        match any {
            AnyBuilder::Time32Millisecond(b) => Some(b),
            _ => None,
        }
    }
}

/// The type of microseconds since midnight.
#[derive(Debug, PartialEq, Eq)]
pub struct Time64MicrosecondType;

impl ArrowPrimitiveType for Time64MicrosecondType {
    type Native = i64;

    open spec fn spec_data_type() -> DataTypeView {
        DataTypeView::Time64(TimeUnit::Microsecond)
    }

    proof fn lemma_width() {
        assert(i64::byte_width() == 8);
    }

    fn data_type() -> (r: DataType) {
        DataType::Time64(TimeUnit::Microsecond)
    }

    open spec fn spec_erase(builder: PrimitiveBuilder<Self>) -> AnyBuilder {
        AnyBuilder::Time64Microsecond(builder)
    }

    open spec fn spec_downcast(any: AnyBuilder) -> Option<PrimitiveBuilder<Self>> {
        match any {
            AnyBuilder::Time64Microsecond(b) => Some(b),
            _ => None,
        }
    }

    fn erase(builder: PrimitiveBuilder<Self>) -> (r: AnyBuilder) {
        AnyBuilder::Time64Microsecond(builder)
    }

    fn downcast_ref(any: &AnyBuilder) -> (r: Option<&PrimitiveBuilder<Self>>) {
        match any {
            AnyBuilder::Time64Microsecond(b) => Some(b),
            _ => None,
        }
    }

    fn downcast_mut(any: &mut AnyBuilder) -> (r: Option<&mut PrimitiveBuilder<Self>>) {
        match any {
            AnyBuilder::Time64Microsecond(b) => Some(b),
            _ => None,
        }
    }
}

/// The type of nanoseconds since midnight.
#[derive(Debug, PartialEq, Eq)]
pub struct Time64NanosecondType;

impl ArrowPrimitiveType for Time64NanosecondType {
    type Native = i64;

    open spec fn spec_data_type() -> DataTypeView {
        DataTypeView::Time64(TimeUnit::Nanosecond)
    }

    proof fn lemma_width() {
        assert(i64::byte_width() == 8);
    }

    fn data_type() -> (r: DataType) {
        DataType::Time64(TimeUnit::Nanosecond)
    }

    open spec fn spec_erase(builder: PrimitiveBuilder<Self>) -> AnyBuilder {
        AnyBuilder::Time64Nanosecond(builder)
    }

    open spec fn spec_downcast(any: AnyBuilder) -> Option<PrimitiveBuilder<Self>> {
        match any {
            AnyBuilder::Time64Nanosecond(b) => Some(b),
            _ => None,
        }
    }

    fn erase(builder: PrimitiveBuilder<Self>) -> (r: AnyBuilder) {
        AnyBuilder::Time64Nanosecond(builder)
    }

    fn downcast_ref(any: &AnyBuilder) -> (r: Option<&PrimitiveBuilder<Self>>) {
        match any {
            AnyBuilder::Time64Nanosecond(b) => Some(b),
            _ => None,
        }
    }

    fn downcast_mut(any: &mut AnyBuilder) -> (r: Option<&mut PrimitiveBuilder<Self>>) {
        match any {
            AnyBuilder::Time64Nanosecond(b) => Some(b),
            _ => None,
        }
    }
}

/// The type of seconds since the epoch.
#[derive(Debug, PartialEq, Eq)]
pub struct TimestampSecondType;

impl ArrowPrimitiveType for TimestampSecondType {
    type Native = i64;

    open spec fn spec_data_type() -> DataTypeView {
        DataTypeView::Timestamp(TimeUnit::Second, None)
    }

    proof fn lemma_width() {
        assert(i64::byte_width() == 8);
    }

    fn data_type() -> (r: DataType) {
        DataType::Timestamp(TimeUnit::Second, None)
    }

    open spec fn spec_erase(builder: PrimitiveBuilder<Self>) -> AnyBuilder {
        AnyBuilder::TimestampSecond(builder)
    }

    open spec fn spec_downcast(any: AnyBuilder) -> Option<PrimitiveBuilder<Self>> {
        match any {
            AnyBuilder::TimestampSecond(b) => Some(b),
            _ => None,
        }
    }

    fn erase(builder: PrimitiveBuilder<Self>) -> (r: AnyBuilder) {
        AnyBuilder::TimestampSecond(builder)
    }

    fn downcast_ref(any: &AnyBuilder) -> (r: Option<&PrimitiveBuilder<Self>>) {
        match any {
            AnyBuilder::TimestampSecond(b) => Some(b),
            _ => None,
        }
    }

    fn downcast_mut(any: &mut AnyBuilder) -> (r: Option<&mut PrimitiveBuilder<Self>>) {
        match any {
            AnyBuilder::TimestampSecond(b) => Some(b),
            _ => None,
        }
    }
}

/// The type of milliseconds since the epoch.
#[derive(Debug, PartialEq, Eq)]
pub struct TimestampMillisecondType;

impl ArrowPrimitiveType for TimestampMillisecondType {
    type Native = i64;

    open spec fn spec_data_type() -> DataTypeView {
        DataTypeView::Timestamp(TimeUnit::Millisecond, None)
    }

    proof fn lemma_width() {
        assert(i64::byte_width() == 8);
    }

    fn data_type() -> (r: DataType) {
        DataType::Timestamp(TimeUnit::Millisecond, None)
    }

    open spec fn spec_erase(builder: PrimitiveBuilder<Self>) -> AnyBuilder {
        AnyBuilder::TimestampMillisecond(builder)
    }

    open spec fn spec_downcast(any: AnyBuilder) -> Option<PrimitiveBuilder<Self>> {
        match any {
            AnyBuilder::TimestampMillisecond(b) => Some(b),
            _ => None,
        }
    }

    fn erase(builder: PrimitiveBuilder<Self>) -> (r: AnyBuilder) {
        AnyBuilder::TimestampMillisecond(builder)
    }

    fn downcast_ref(any: &AnyBuilder) -> (r: Option<&PrimitiveBuilder<Self>>) {
        match any {
            AnyBuilder::TimestampMillisecond(b) => Some(b),
            _ => None,
        }
    }

    fn downcast_mut(any: &mut AnyBuilder) -> (r: Option<&mut PrimitiveBuilder<Self>>) {
        match any {
            AnyBuilder::TimestampMillisecond(b) => Some(b),
            _ => None,
        }
    }
}

/// The type of microseconds since the epoch.
#[derive(Debug, PartialEq, Eq)]
pub struct TimestampMicrosecondType;

impl ArrowPrimitiveType for TimestampMicrosecondType {
    type Native = i64;

    open spec fn spec_data_type() -> DataTypeView {
        DataTypeView::Timestamp(TimeUnit::Microsecond, None)
    }

    proof fn lemma_width() {
        assert(i64::byte_width() == 8);
    }

    fn data_type() -> (r: DataType) {
        DataType::Timestamp(TimeUnit::Microsecond, None)
    }

    open spec fn spec_erase(builder: PrimitiveBuilder<Self>) -> AnyBuilder {
        AnyBuilder::TimestampMicrosecond(builder)
    }

    open spec fn spec_downcast(any: AnyBuilder) -> Option<PrimitiveBuilder<Self>> {
        match any {
            AnyBuilder::TimestampMicrosecond(b) => Some(b),
            _ => None,
        }
    }

    fn erase(builder: PrimitiveBuilder<Self>) -> (r: AnyBuilder) {
        AnyBuilder::TimestampMicrosecond(builder)
    }

    fn downcast_ref(any: &AnyBuilder) -> (r: Option<&PrimitiveBuilder<Self>>) {
        match any {
            AnyBuilder::TimestampMicrosecond(b) => Some(b),
            _ => None,
        }
    }

    fn downcast_mut(any: &mut AnyBuilder) -> (r: Option<&mut PrimitiveBuilder<Self>>) {
        match any {
            AnyBuilder::TimestampMicrosecond(b) => Some(b),
            _ => None,
        }
    }
}

/// The type of nanoseconds since the epoch.
#[derive(Debug, PartialEq, Eq)]
pub struct TimestampNanosecondType;

impl ArrowPrimitiveType for TimestampNanosecondType {
    type Native = i64;

    open spec fn spec_data_type() -> DataTypeView {
        DataTypeView::Timestamp(TimeUnit::Nanosecond, None)
    }

    proof fn lemma_width() {
        assert(i64::byte_width() == 8);
    }

    fn data_type() -> (r: DataType) {
        DataType::Timestamp(TimeUnit::Nanosecond, None)
    }

    open spec fn spec_erase(builder: PrimitiveBuilder<Self>) -> AnyBuilder {
        AnyBuilder::TimestampNanosecond(builder)
    }

    open spec fn spec_downcast(any: AnyBuilder) -> Option<PrimitiveBuilder<Self>> {
        match any {
            AnyBuilder::TimestampNanosecond(b) => Some(b),
            _ => None,
        }
    }

    fn erase(builder: PrimitiveBuilder<Self>) -> (r: AnyBuilder) {
        AnyBuilder::TimestampNanosecond(builder)
    }

    fn downcast_ref(any: &AnyBuilder) -> (r: Option<&PrimitiveBuilder<Self>>) {
        match any {
            AnyBuilder::TimestampNanosecond(b) => Some(b),
            _ => None,
        }
    }

    fn downcast_mut(any: &mut AnyBuilder) -> (r: Option<&mut PrimitiveBuilder<Self>>) {
        match any {
            AnyBuilder::TimestampNanosecond(b) => Some(b),
            _ => None,
        }
    }
}

/// The type of intervals in months.
#[derive(Debug, PartialEq, Eq)]
pub struct IntervalYearMonthType;

impl ArrowPrimitiveType for IntervalYearMonthType {
    type Native = i32;

    open spec fn spec_data_type() -> DataTypeView {
        DataTypeView::Interval(IntervalUnit::YearMonth)
    }

    proof fn lemma_width() {
        assert(i32::byte_width() == 4);
    }

    fn data_type() -> (r: DataType) {
        DataType::Interval(IntervalUnit::YearMonth)
    }

    open spec fn spec_erase(builder: PrimitiveBuilder<Self>) -> AnyBuilder {
        AnyBuilder::IntervalYearMonth(builder)
    }

    open spec fn spec_downcast(any: AnyBuilder) -> Option<PrimitiveBuilder<Self>> {
        match any {
            AnyBuilder::IntervalYearMonth(b) => Some(b),
            _ => None,
        }
    }

    fn erase(builder: PrimitiveBuilder<Self>) -> (r: AnyBuilder) {
        AnyBuilder::IntervalYearMonth(builder)
    }

    fn downcast_ref(any: &AnyBuilder) -> (r: Option<&PrimitiveBuilder<Self>>) {
        match any {
            AnyBuilder::IntervalYearMonth(b) => Some(b),
            _ => None,
        }
    }

    fn downcast_mut(any: &mut AnyBuilder) -> (r: Option<&mut PrimitiveBuilder<Self>>) {
        match any {
            AnyBuilder::IntervalYearMonth(b) => Some(b),
            _ => None,
        }
    }
}

/// The type of intervals in days and milliseconds.
#[derive(Debug, PartialEq, Eq)]
pub struct IntervalDayTimeType;

impl ArrowPrimitiveType for IntervalDayTimeType {
    type Native = i64;

    open spec fn spec_data_type() -> DataTypeView {
        DataTypeView::Interval(IntervalUnit::DayTime)
    }

    proof fn lemma_width() {
        assert(i64::byte_width() == 8);
    }

    fn data_type() -> (r: DataType) {
        DataType::Interval(IntervalUnit::DayTime)
    }

    open spec fn spec_erase(builder: PrimitiveBuilder<Self>) -> AnyBuilder {
        AnyBuilder::IntervalDayTime(builder)
    }

    open spec fn spec_downcast(any: AnyBuilder) -> Option<PrimitiveBuilder<Self>> {
        match any {
            AnyBuilder::IntervalDayTime(b) => Some(b),
            _ => None,
        }
    }

    fn erase(builder: PrimitiveBuilder<Self>) -> (r: AnyBuilder) {
        AnyBuilder::IntervalDayTime(builder)
    }

    fn downcast_ref(any: &AnyBuilder) -> (r: Option<&PrimitiveBuilder<Self>>) {
        match any {
            AnyBuilder::IntervalDayTime(b) => Some(b),
            _ => None,
        }
    }

    fn downcast_mut(any: &mut AnyBuilder) -> (r: Option<&mut PrimitiveBuilder<Self>>) {
        match any {
            AnyBuilder::IntervalDayTime(b) => Some(b),
            _ => None,
        }
    }
}

/// The type of elapsed seconds.
#[derive(Debug, PartialEq, Eq)]
pub struct DurationSecondType;

impl ArrowPrimitiveType for DurationSecondType {
    type Native = i64;

    open spec fn spec_data_type() -> DataTypeView {
        DataTypeView::Duration(TimeUnit::Second)
    }

    proof fn lemma_width() {
        assert(i64::byte_width() == 8);
    }

    fn data_type() -> (r: DataType) {
        DataType::Duration(TimeUnit::Second)
    }

    open spec fn spec_erase(builder: PrimitiveBuilder<Self>) -> AnyBuilder {
        AnyBuilder::DurationSecond(builder)
    }

    open spec fn spec_downcast(any: AnyBuilder) -> Option<PrimitiveBuilder<Self>> {
        match any {
            AnyBuilder::DurationSecond(b) => Some(b),
            _ => None,
        }
    }

    fn erase(builder: PrimitiveBuilder<Self>) -> (r: AnyBuilder) {
        AnyBuilder::DurationSecond(builder)
    }

    fn downcast_ref(any: &AnyBuilder) -> (r: Option<&PrimitiveBuilder<Self>>) {
        match any {
            AnyBuilder::DurationSecond(b) => Some(b),
            _ => None,
        }
    }

    fn downcast_mut(any: &mut AnyBuilder) -> (r: Option<&mut PrimitiveBuilder<Self>>) {
        match any {
            AnyBuilder::DurationSecond(b) => Some(b),
            _ => None,
        }
    }
}

/// The type of elapsed milliseconds.
#[derive(Debug, PartialEq, Eq)]
pub struct DurationMillisecondType;

impl ArrowPrimitiveType for DurationMillisecondType {
    type Native = i64;

    open spec fn spec_data_type() -> DataTypeView {
        DataTypeView::Duration(TimeUnit::Millisecond)
    }

    proof fn lemma_width() {
        assert(i64::byte_width() == 8);
    }

    fn data_type() -> (r: DataType) {
        DataType::Duration(TimeUnit::Millisecond)
    }

    open spec fn spec_erase(builder: PrimitiveBuilder<Self>) -> AnyBuilder {
        AnyBuilder::DurationMillisecond(builder)
    }

    open spec fn spec_downcast(any: AnyBuilder) -> Option<PrimitiveBuilder<Self>> {
        match any {
            AnyBuilder::DurationMillisecond(b) => Some(b),
            _ => None,
        }
    }

    fn erase(builder: PrimitiveBuilder<Self>) -> (r: AnyBuilder) {
        AnyBuilder::DurationMillisecond(builder)
    }

    fn downcast_ref(any: &AnyBuilder) -> (r: Option<&PrimitiveBuilder<Self>>) {
        match any {
            AnyBuilder::DurationMillisecond(b) => Some(b),
            _ => None,
        }
    }

    fn downcast_mut(any: &mut AnyBuilder) -> (r: Option<&mut PrimitiveBuilder<Self>>) {
        match any {
            AnyBuilder::DurationMillisecond(b) => Some(b),
            _ => None,
        }
    }
}

/// The type of elapsed microseconds.
#[derive(Debug, PartialEq, Eq)]
pub struct DurationMicrosecondType;

impl ArrowPrimitiveType for DurationMicrosecondType {
    type Native = i64;

    open spec fn spec_data_type() -> DataTypeView {
        DataTypeView::Duration(TimeUnit::Microsecond)
    }

    proof fn lemma_width() {
        assert(i64::byte_width() == 8);
    }

    fn data_type() -> (r: DataType) {
        DataType::Duration(TimeUnit::Microsecond)
    }

    open spec fn spec_erase(builder: PrimitiveBuilder<Self>) -> AnyBuilder {
        AnyBuilder::DurationMicrosecond(builder)
    }

    open spec fn spec_downcast(any: AnyBuilder) -> Option<PrimitiveBuilder<Self>> {
        match any {
            AnyBuilder::DurationMicrosecond(b) => Some(b),
            _ => None,
        }
    }

    fn erase(builder: PrimitiveBuilder<Self>) -> (r: AnyBuilder) {
        AnyBuilder::DurationMicrosecond(builder)
    }

    fn downcast_ref(any: &AnyBuilder) -> (r: Option<&PrimitiveBuilder<Self>>) {
        match any {
            AnyBuilder::DurationMicrosecond(b) => Some(b),
            _ => None,
        }
    }

    fn downcast_mut(any: &mut AnyBuilder) -> (r: Option<&mut PrimitiveBuilder<Self>>) {
        match any {
            AnyBuilder::DurationMicrosecond(b) => Some(b),
            _ => None,
        }
    }
}

/// The type of elapsed nanoseconds.
#[derive(Debug, PartialEq, Eq)]
pub struct DurationNanosecondType;

impl ArrowPrimitiveType for DurationNanosecondType {
    type Native = i64;

    open spec fn spec_data_type() -> DataTypeView {
        DataTypeView::Duration(TimeUnit::Nanosecond)
    }

    proof fn lemma_width() {
        assert(i64::byte_width() == 8);
    }

    fn data_type() -> (r: DataType) {
        DataType::Duration(TimeUnit::Nanosecond)
    }

    open spec fn spec_erase(builder: PrimitiveBuilder<Self>) -> AnyBuilder {
        AnyBuilder::DurationNanosecond(builder)
    }

    open spec fn spec_downcast(any: AnyBuilder) -> Option<PrimitiveBuilder<Self>> {
        match any {
            AnyBuilder::DurationNanosecond(b) => Some(b),
            _ => None,
        }
    }

    fn erase(builder: PrimitiveBuilder<Self>) -> (r: AnyBuilder) {
        AnyBuilder::DurationNanosecond(builder)
    }

    fn downcast_ref(any: &AnyBuilder) -> (r: Option<&PrimitiveBuilder<Self>>) {
        match any {
            AnyBuilder::DurationNanosecond(b) => Some(b),
            _ => None,
        }
    }

    fn downcast_mut(any: &mut AnyBuilder) -> (r: Option<&mut PrimitiveBuilder<Self>>) {
        match any {
            AnyBuilder::DurationNanosecond(b) => Some(b),
            _ => None,
        }
    }
}

impl ArrowDictionaryKeyType for Int8Type {

}

impl ArrowDictionaryKeyType for Int16Type {

}

impl ArrowDictionaryKeyType for Int32Type {

}

impl ArrowDictionaryKeyType for Int64Type {

}

impl ArrowDictionaryKeyType for UInt8Type {

}

impl ArrowDictionaryKeyType for UInt16Type {

}

impl ArrowDictionaryKeyType for UInt32Type {

}

impl ArrowDictionaryKeyType for UInt64Type {

}

} // verus!
