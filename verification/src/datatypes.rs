//! Type metadata: the declared type of an array and the fields of nested
//! types.

use vstd::prelude::*;

verus! {

/// The unit of a time-based type.
#[derive(Clone, Copy, Debug, PartialEq, Eq, Structural)]
pub enum TimeUnit {
    Second,
    Millisecond,
    Microsecond,
    Nanosecond,
}

/// The unit of an interval type.
#[derive(Clone, Copy, Debug, PartialEq, Eq, Structural)]
pub enum IntervalUnit {
    YearMonth,
    DayTime,
}

/// The declared type of an array.
#[derive(Debug, PartialEq, Eq)]
pub enum DataType {
    Null,
    Boolean,
    Int8,
    Int16,
    Int32,
    Int64,
    UInt8,
    UInt16,
    UInt32,
    UInt64,
    Float16,
    Float32,
    Float64,
    Timestamp(TimeUnit, Option<String>),
    Date32,
    Date64,
    Time32(TimeUnit),
    Time64(TimeUnit),
    Duration(TimeUnit),
    Interval(IntervalUnit),
    Binary,
    FixedSizeBinary(i32),
    LargeBinary,
    Utf8,
    LargeUtf8,
    List(Box<Field>),
    FixedSizeList(Box<Field>, i32),
    LargeList(Box<Field>),
    Struct(Vec<Field>),
    Union(Vec<Field>),
    Dictionary(Box<DataType>, Box<DataType>),
    Decimal(usize, usize),
}

/// A named, typed member of a nested type.
#[derive(Debug, PartialEq, Eq)]
pub struct Field {
    pub name: String,
    pub data_type: DataType,
    pub nullable: bool,
}

/// What a `DataType` says, strings and lists taken by their content.
pub ghost enum DataTypeView {
    Null,
    Boolean,
    Int8,
    Int16,
    Int32,
    Int64,
    UInt8,
    UInt16,
    UInt32,
    UInt64,
    Float16,
    Float32,
    Float64,
    Timestamp(TimeUnit, Option<Seq<char>>),
    Date32,
    Date64,
    Time32(TimeUnit),
    Time64(TimeUnit),
    Duration(TimeUnit),
    Interval(IntervalUnit),
    Binary,
    FixedSizeBinary(i32),
    LargeBinary,
    Utf8,
    LargeUtf8,
    List(Box<FieldView>),
    FixedSizeList(Box<FieldView>, i32),
    LargeList(Box<FieldView>),
    Struct(Seq<FieldView>),
    Union(Seq<FieldView>),
    Dictionary(Box<DataTypeView>, Box<DataTypeView>),
    Decimal(usize, usize),
}

/// What a `Field` says.
pub ghost struct FieldView {
    pub name: Seq<char>,
    pub data_type: DataTypeView,
    pub nullable: bool,
}

/// The views of the fields of `fields`.
pub open spec fn fields_view(fields: Seq<Field>) -> Seq<FieldView>
    decreases fields,
{
    if fields.len() == 0 {
        Seq::empty()
    } else {
        fields_view(fields.drop_last()).push(field_view(fields.last()))
    }
}

/// What `data_type` says.
pub open spec fn data_type_view(data_type: DataType) -> DataTypeView
    decreases data_type,
{
        match data_type {
            DataType::Null => DataTypeView::Null,
            DataType::Boolean => DataTypeView::Boolean,
            DataType::Int8 => DataTypeView::Int8,
            DataType::Int16 => DataTypeView::Int16,
            DataType::Int32 => DataTypeView::Int32,
            DataType::Int64 => DataTypeView::Int64,
            DataType::UInt8 => DataTypeView::UInt8,
            DataType::UInt16 => DataTypeView::UInt16,
            DataType::UInt32 => DataTypeView::UInt32,
            DataType::UInt64 => DataTypeView::UInt64,
            DataType::Float16 => DataTypeView::Float16,
            DataType::Float32 => DataTypeView::Float32,
            DataType::Float64 => DataTypeView::Float64,
            DataType::Timestamp(unit, zone) => DataTypeView::Timestamp(
                unit,
                match zone {
                    Some(z) => Some(z@),
                    None => None,
                },
            ),
            DataType::Date32 => DataTypeView::Date32,
            DataType::Date64 => DataTypeView::Date64,
            DataType::Time32(unit) => DataTypeView::Time32(unit),
            DataType::Time64(unit) => DataTypeView::Time64(unit),
            DataType::Duration(unit) => DataTypeView::Duration(unit),
            DataType::Interval(unit) => DataTypeView::Interval(unit),
            DataType::Binary => DataTypeView::Binary,
            DataType::FixedSizeBinary(width) => DataTypeView::FixedSizeBinary(width),
            DataType::LargeBinary => DataTypeView::LargeBinary,
            DataType::Utf8 => DataTypeView::Utf8,
            DataType::LargeUtf8 => DataTypeView::LargeUtf8,
            DataType::List(field) => DataTypeView::List(Box::new(field_view(*field))),
            DataType::FixedSizeList(field, len) => DataTypeView::FixedSizeList(
                Box::new(field_view(*field)),
                len,
            ),
            DataType::LargeList(field) => DataTypeView::LargeList(Box::new(field_view(*field))),
            DataType::Struct(fields) => DataTypeView::Struct(fields_view(fields@)),
            DataType::Union(fields) => DataTypeView::Union(fields_view(fields@)),
            DataType::Dictionary(key, value) => DataTypeView::Dictionary(
                Box::new(data_type_view(*key)),
                Box::new(data_type_view(*value)),
            ),
            DataType::Decimal(precision, scale) => DataTypeView::Decimal(precision, scale),
        }
}

/// What `field` says.
pub open spec fn field_view(field: Field) -> FieldView
    decreases field,
{
    FieldView {
        name: field.name@,
        data_type: data_type_view(field.data_type),
        nullable: field.nullable,
    }
}

impl View for DataType {
    type V = DataTypeView;

    open spec fn view(&self) -> DataTypeView {
        data_type_view(*self)
    }
}

impl View for Field {
    type V = FieldView;

    open spec fn view(&self) -> FieldView {
        field_view(*self)
    }
}

/// The view of a list of fields is the list of their views.
pub proof fn lemma_fields_view(fields: Seq<Field>)
    ensures
        fields_view(fields).len() == fields.len(),
        forall|i: int| 0 <= i < fields.len() ==> #[trigger] fields_view(fields)[i] == field_view(fields[i]),
    decreases fields.len(),
{
    if fields.len() > 0 {
        lemma_fields_view(fields.drop_last());
    }
}

/// A copy of `data_type`.
pub fn clone_data_type(data_type: &DataType) -> (r: DataType)
    ensures
        r@ == data_type@,
    decreases data_type,
{
    match data_type {
        DataType::Null => DataType::Null,
        DataType::Boolean => DataType::Boolean,
        DataType::Int8 => DataType::Int8,
        DataType::Int16 => DataType::Int16,
        DataType::Int32 => DataType::Int32,
        DataType::Int64 => DataType::Int64,
        DataType::UInt8 => DataType::UInt8,
        DataType::UInt16 => DataType::UInt16,
        DataType::UInt32 => DataType::UInt32,
        DataType::UInt64 => DataType::UInt64,
        DataType::Float16 => DataType::Float16,
        DataType::Float32 => DataType::Float32,
        DataType::Float64 => DataType::Float64,
        DataType::Date32 => DataType::Date32,
        DataType::Date64 => DataType::Date64,
        DataType::Binary => DataType::Binary,
        DataType::LargeBinary => DataType::LargeBinary,
        DataType::Utf8 => DataType::Utf8,
        DataType::LargeUtf8 => DataType::LargeUtf8,
        DataType::Timestamp(unit, zone) => DataType::Timestamp(
            *unit,
            match zone {
                Some(z) => Some(z.clone()),
                None => None,
            },
        ),
        DataType::Time32(unit) => DataType::Time32(*unit),
        DataType::Time64(unit) => DataType::Time64(*unit),
        DataType::Duration(unit) => DataType::Duration(*unit),
        DataType::Interval(unit) => DataType::Interval(*unit),
        DataType::FixedSizeBinary(width) => DataType::FixedSizeBinary(*width),
        DataType::List(field) => DataType::List(Box::new(clone_field(field))),
        DataType::FixedSizeList(field, len) => DataType::FixedSizeList(
            Box::new(clone_field(field)),
            *len,
        ),
        DataType::LargeList(field) => DataType::LargeList(Box::new(clone_field(field))),
        DataType::Struct(fields) => DataType::Struct(clone_fields(fields)),
        DataType::Union(fields) => DataType::Union(clone_fields(fields)),
        DataType::Dictionary(key, value) => DataType::Dictionary(
            Box::new(clone_data_type(key)),
            Box::new(clone_data_type(value)),
        ),
        DataType::Decimal(precision, scale) => DataType::Decimal(*precision, *scale),
    }
}

/// A copy of `field`.
pub fn clone_field(field: &Field) -> (r: Field)
    ensures
        r@ == field@,
    decreases field,
{
    Field {
        name: field.name.clone(),
        data_type: clone_data_type(&field.data_type),
        nullable: field.nullable,
    }
}

/// A copy of `fields`.
pub fn clone_fields(fields: &Vec<Field>) -> (r: Vec<Field>)
    ensures
        fields_view(r@) == fields_view(fields@),
        r@.len() == fields@.len(),
    decreases fields,
{
    let mut out: Vec<Field> = Vec::new();
    let mut i: usize = 0;
    while i < fields.len()
        invariant
            i <= fields@.len(),
            out@.len() == i,
            forall|k: int| 0 <= k < i ==> field_view(#[trigger] out@[k]) == field_view(fields@[k]),
        decreases fields@.len() - i,
    {
        let f = clone_field(&fields[i]);
        out.push(f);
        i = i + 1;
    }
    proof {
        lemma_fields_view(out@);
        lemma_fields_view(fields@);
        assert(fields_view(out@) =~= fields_view(fields@));
    }
    out
}

/// Whether `a` and `b` say the same.
pub fn data_type_eq(a: &DataType, b: &DataType) -> (r: bool)
    ensures
        r == (a@ == b@),
    decreases a,
{
    proof {
        reveal_with_fuel(data_type_view, 2);
    }
    match a {
        DataType::Null => match b {
            DataType::Null => true,
            _ => false,
        },
        DataType::Boolean => match b {
            DataType::Boolean => true,
            _ => false,
        },
        DataType::Int8 => match b {
            DataType::Int8 => true,
            _ => false,
        },
        DataType::Int16 => match b {
            DataType::Int16 => true,
            _ => false,
        },
        DataType::Int32 => match b {
            DataType::Int32 => true,
            _ => false,
        },
        DataType::Int64 => match b {
            DataType::Int64 => true,
            _ => false,
        },
        DataType::UInt8 => match b {
            DataType::UInt8 => true,
            _ => false,
        },
        DataType::UInt16 => match b {
            DataType::UInt16 => true,
            _ => false,
        },
        DataType::UInt32 => match b {
            DataType::UInt32 => true,
            _ => false,
        },
        DataType::UInt64 => match b {
            DataType::UInt64 => true,
            _ => false,
        },
        DataType::Float16 => match b {
            DataType::Float16 => true,
            _ => false,
        },
        DataType::Float32 => match b {
            DataType::Float32 => true,
            _ => false,
        },
        DataType::Float64 => match b {
            DataType::Float64 => true,
            _ => false,
        },
        DataType::Date32 => match b {
            DataType::Date32 => true,
            _ => false,
        },
        DataType::Date64 => match b {
            DataType::Date64 => true,
            _ => false,
        },
        DataType::Binary => match b {
            DataType::Binary => true,
            _ => false,
        },
        DataType::LargeBinary => match b {
            DataType::LargeBinary => true,
            _ => false,
        },
        DataType::Utf8 => match b {
            DataType::Utf8 => true,
            _ => false,
        },
        DataType::LargeUtf8 => match b {
            DataType::LargeUtf8 => true,
            _ => false,
        },
        DataType::Timestamp(unit, zone) => match b {
            DataType::Timestamp(other_unit, other_zone) => {
                let zones = match zone {
                    Some(z) => match other_zone {
                        Some(o) => *z == *o,
                        None => false,
                    },
                    None => other_zone.is_none(),
                };
                time_unit_eq(*unit, *other_unit) && zones
            },
            _ => false,
        },
        DataType::Time32(unit) => match b {
            DataType::Time32(other) => time_unit_eq(*unit, *other),
            _ => false,
        },
        DataType::Time64(unit) => match b {
            DataType::Time64(other) => time_unit_eq(*unit, *other),
            _ => false,
        },
        DataType::Duration(unit) => match b {
            DataType::Duration(other) => time_unit_eq(*unit, *other),
            _ => false,
        },
        DataType::Interval(unit) => match b {
            DataType::Interval(other) => match unit {
                IntervalUnit::YearMonth => match other {
                    IntervalUnit::YearMonth => true,
                    _ => false,
                },
                IntervalUnit::DayTime => match other {
                    IntervalUnit::DayTime => true,
                    _ => false,
                },
            },
            _ => false,
        },
        DataType::FixedSizeBinary(width) => match b {
            DataType::FixedSizeBinary(other) => *width == *other,
            _ => false,
        },
        DataType::List(field) => match b {
            DataType::List(other) => field_eq(field, other),
            _ => false,
        },
        DataType::FixedSizeList(field, len) => match b {
            DataType::FixedSizeList(other, other_len) => *len == *other_len && field_eq(
                field,
                other,
            ),
            _ => false,
        },
        DataType::LargeList(field) => match b {
            DataType::LargeList(other) => field_eq(field, other),
            _ => false,
        },
        DataType::Struct(fields) => match b {
            DataType::Struct(other) => fields_eq(fields, other),
            _ => false,
        },
        DataType::Union(fields) => match b {
            DataType::Union(other) => fields_eq(fields, other),
            _ => false,
        },
        DataType::Dictionary(key, value) => match b {
            DataType::Dictionary(other_key, other_value) => data_type_eq(key, other_key)
                && data_type_eq(value, other_value),
            _ => false,
        },
        DataType::Decimal(precision, scale) => match b {
            DataType::Decimal(other_precision, other_scale) => *precision == *other_precision
                && *scale == *other_scale,
            _ => false,
        },
    }
}

fn time_unit_eq(a: TimeUnit, b: TimeUnit) -> (r: bool)
    ensures
        r == (a == b),
{
    match a {
        TimeUnit::Second => match b {
            TimeUnit::Second => true,
            _ => false,
        },
        TimeUnit::Millisecond => match b {
            TimeUnit::Millisecond => true,
            _ => false,
        },
        TimeUnit::Microsecond => match b {
            TimeUnit::Microsecond => true,
            _ => false,
        },
        TimeUnit::Nanosecond => match b {
            TimeUnit::Nanosecond => true,
            _ => false,
        },
    }
}

/// Whether `a` and `b` say the same.
pub fn field_eq(a: &Field, b: &Field) -> (r: bool)
    ensures
        r == (a@ == b@),
    decreases a,
{
    a.name == b.name && a.nullable == b.nullable && data_type_eq(&a.data_type, &b.data_type)
}

/// Whether `a` and `b` say the same, field by field.
pub fn fields_eq(a: &Vec<Field>, b: &Vec<Field>) -> (r: bool)
    ensures
        r == (fields_view(a@) == fields_view(b@)),
    decreases a,
{
    proof {
        lemma_fields_view(a@);
        lemma_fields_view(b@);
    }
    if a.len() != b.len() {
        return false;
    }
    let mut i: usize = 0;
    while i < a.len()
        invariant
            i <= a@.len(),
            a@.len() == b@.len(),
            forall|k: int| 0 <= k < i ==> field_view(#[trigger] a@[k]) == field_view(b@[k]),
            forall|k: int|
                0 <= k < a@.len() ==> #[trigger] fields_view(a@)[k] == field_view(a@[k]),
            forall|k: int|
                0 <= k < b@.len() ==> #[trigger] fields_view(b@)[k] == field_view(b@[k]),
        decreases a@.len() - i,
    {
        if !field_eq(&a[i], &b[i]) {
            proof {
                assert(fields_view(a@)[i as int] != fields_view(b@)[i as int]);
            }
            return false;
        }
        i = i + 1;
    }
    proof {
        assert(fields_view(a@) =~= fields_view(b@));
    }
    true
}

impl Clone for DataType {
    fn clone(&self) -> (r: Self)
        ensures
            r@ == self@,
    {
        clone_data_type(self)
    }
}

impl Clone for Field {
    fn clone(&self) -> (r: Self)
        ensures
            r@ == self@,
    {
        clone_field(self)
    }
}

impl Field {
    /// A field with the given name, type and nullability.
    pub fn new(name: &str, data_type: DataType, nullable: bool) -> (r: Self)
        ensures
            r@ == (FieldView { name: name@, data_type: data_type@, nullable }),
    {
        Field { name: name.to_owned(), data_type, nullable }
    }

    /// The field's name.
    pub fn name(&self) -> (r: &String)
        ensures
            r@ == self@.name,
    {
        &self.name
    }

    /// The field's type.
    pub fn data_type(&self) -> (r: &DataType)
        ensures
            r@ == self@.data_type,
    {
        &self.data_type
    }

    /// Whether the field may hold nulls.
    pub fn is_nullable(&self) -> (r: bool)
        ensures
            r == self@.nullable,
    {
        self.nullable
    }
}

/// The width in bytes of the values of a primitive type; nothing for a type
/// that is not primitive.
pub open spec fn primitive_width(data_type: DataTypeView) -> Option<nat> {
    match data_type {
        DataTypeView::Int8 => Some(1nat),
        DataTypeView::UInt8 => Some(1nat),
        DataTypeView::Int16 => Some(2nat),
        DataTypeView::UInt16 => Some(2nat),
        DataTypeView::Int32 => Some(4nat),
        DataTypeView::UInt32 => Some(4nat),
        DataTypeView::Float32 => Some(4nat),
        DataTypeView::Date32 => Some(4nat),
        DataTypeView::Time32(_) => Some(4nat),
        DataTypeView::Interval(IntervalUnit::YearMonth) => Some(4nat),
        DataTypeView::Int64 => Some(8nat),
        DataTypeView::UInt64 => Some(8nat),
        DataTypeView::Float64 => Some(8nat),
        DataTypeView::Timestamp(_, _) => Some(8nat),
        DataTypeView::Date64 => Some(8nat),
        DataTypeView::Time64(_) => Some(8nat),
        DataTypeView::Interval(IntervalUnit::DayTime) => Some(8nat),
        DataTypeView::Duration(_) => Some(8nat),
        _ => None,
    }
}

} // verus!
