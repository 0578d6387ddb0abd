use arrow_builder::array_builder::ArrayBuilder;
use arrow_builder::array_data::ArrayData;
use arrow_builder::binary_builder::BinaryBuilder;
use arrow_builder::boolean_builder::BooleanBuilder;
use arrow_builder::buffer::Buffer;
use arrow_builder::datatypes::{DataType, Field, IntervalUnit, TimeUnit};
use arrow_builder::fixed_binary_builder::{DecimalBuilder, FixedSizeBinaryBuilder};
use arrow_builder::primitive_builder::{
    Date64Builder, DurationNanosecondBuilder, Float32Builder, Int16Builder, Int32Builder,
    IntervalDayTimeBuilder, Time32MillisecondBuilder, Time64MicrosecondBuilder,
    TimestampMicrosecondBuilder, TimestampSecondBuilder,
};
use arrow_builder::string_builder::StringBuilder;
use arrow_builder::struct_builder::{
    is_supported, make_builder, AnyBuilder, BuilderKind, StructBuilder,
};

#[test]
fn test_struct_array_builder() {
    let string_builder = StringBuilder::new(4);
    let int_builder = Int32Builder::new(4);

    let mut fields = Vec::new();
    let mut field_builders = Vec::new();
    fields.push(Field::new("f1", DataType::Utf8, false));
    field_builders.push(string_builder.into_any());
    fields.push(Field::new("f2", DataType::Int32, false));
    field_builders.push(int_builder.into_any());

    let mut builder = StructBuilder::new(fields, field_builders);
    assert_eq!(2, builder.num_fields());

    let string_builder = builder
        .field_builder::<StringBuilder>(0)
        .expect("builder at field 0 should be string builder");
    string_builder.append_value("joe").unwrap();
    string_builder.append_null().unwrap();
    string_builder.append_null().unwrap();
    string_builder.append_value("mark").unwrap();

    let int_builder = builder
        .field_builder::<Int32Builder>(1)
        .expect("builder at field 1 should be int builder");
    int_builder.append_value(1).unwrap();
    int_builder.append_value(2).unwrap();
    int_builder.append_null().unwrap();
    int_builder.append_value(4).unwrap();

    builder.append(true).unwrap();
    builder.append(true).unwrap();
    builder.append_null().unwrap();
    builder.append(true).unwrap();

    let arr = builder.finish();

    let struct_data = arr.data();
    assert_eq!(4, struct_data.len());
    assert_eq!(1, struct_data.null_count());
    assert_eq!(
        &Some(Buffer::from_bytes(&[11_u8])),
        struct_data.null_bitmap()
    );

    let expected_string_data = ArrayData::builder(DataType::Utf8)
        .len(4)
        .null_bit_buffer(Buffer::from_bytes(&[9_u8]))
        .add_buffer(Buffer::from_slice_ref(&[0, 3, 3, 3, 7]))
        .add_buffer(Buffer::from_slice_ref(b"joemark"))
        .build();

    let expected_int_data = ArrayData::builder(DataType::Int32)
        .len(4)
        .null_bit_buffer(Buffer::from_slice_ref(&[11_u8]))
        .add_buffer(Buffer::from_slice_ref(&[1, 2, 0, 4]))
        .build();

    assert_eq!(&expected_string_data, arr.column(0).data());

    assert_eq!(expected_int_data.len(), arr.column(1).data().len());
    assert_eq!(
        expected_int_data.null_count(),
        arr.column(1).data().null_count()
    );
    assert_eq!(
        expected_int_data.null_bitmap(),
        arr.column(1).data().null_bitmap()
    );
    let expected_value_buf = expected_int_data.buffers()[0].clone();
    let actual_value_buf = arr.column(1).data().buffers()[0].clone();
    for i in 0..expected_int_data.len() {
        if !expected_int_data.is_null(i) {
            assert_eq!(
                expected_value_buf.as_slice()[i * 4..(i + 1) * 4],
                actual_value_buf.as_slice()[i * 4..(i + 1) * 4]
            );
        }
    }
}

#[test]
fn test_struct_array_builder_finish() {
    let int_builder = Int32Builder::new(10);
    let bool_builder = BooleanBuilder::new(10);

    let mut fields = Vec::new();
    let mut field_builders = Vec::new();
    fields.push(Field::new("f1", DataType::Int32, false));
    field_builders.push(int_builder.into_any());
    fields.push(Field::new("f2", DataType::Boolean, false));
    field_builders.push(bool_builder.into_any());

    let mut builder = StructBuilder::new(fields, field_builders);
    builder
        .field_builder::<Int32Builder>(0)
        .unwrap()
        .append_slice(&[0, 1, 2, 3, 4, 5, 6, 7, 8, 9])
        .unwrap();
    builder
        .field_builder::<BooleanBuilder>(1)
        .unwrap()
        .append_slice(&[
            false, true, false, true, false, true, false, true, false, true,
        ])
        .unwrap();

    // Append slot values - all are valid.
    for _ in 0..10 {
        assert!(builder.append(true).is_ok())
    }

    assert_eq!(10, builder.len());

    let arr = builder.finish();

    assert_eq!(10, arr.len());
    assert_eq!(0, builder.len());

    builder
        .field_builder::<Int32Builder>(0)
        .unwrap()
        .append_slice(&[1, 3, 5, 7, 9])
        .unwrap();
    builder
        .field_builder::<BooleanBuilder>(1)
        .unwrap()
        .append_slice(&[false, true, false, true, false])
        .unwrap();

    // Append slot values - all are valid.
    for _ in 0..5 {
        assert!(builder.append(true).is_ok())
    }

    assert_eq!(5, builder.len());

    let arr = builder.finish();

    assert_eq!(5, arr.len());
    assert_eq!(0, builder.len());
}

#[test]
fn test_struct_array_builder_from_schema() {
    let mut fields = Vec::new();
    fields.push(Field::new("f1", DataType::Float32, false));
    fields.push(Field::new("f2", DataType::Utf8, false));
    let mut sub_fields = Vec::new();
    sub_fields.push(Field::new("g1", DataType::Int32, false));
    sub_fields.push(Field::new("g2", DataType::Boolean, false));
    let struct_type = DataType::Struct(sub_fields);
    fields.push(Field::new("f3", struct_type, false));

    let mut builder = StructBuilder::from_fields(fields, 5);
    assert_eq!(3, builder.num_fields());
    assert!(builder.field_builder::<Float32Builder>(0).is_some());
    assert!(builder.field_builder::<StringBuilder>(1).is_some());
    assert!(builder.field_builder::<StructBuilder>(2).is_some());
}

#[test]
fn test_struct_array_builder_field_builder_type_mismatch() {
    let int_builder = Int32Builder::new(10);

    let mut fields = Vec::new();
    let mut field_builders = Vec::new();
    fields.push(Field::new("f1", DataType::Int32, false));
    field_builders.push(int_builder.into_any());

    let mut builder = StructBuilder::new(fields, field_builders);
    assert!(builder.field_builder::<BinaryBuilder>(0).is_none());
}

#[test]
fn struct_builder_without_nulls_has_no_bitmap() {
    let mut fields = Vec::new();
    fields.push(Field::new("a", DataType::Int16, true));
    let mut builder = StructBuilder::from_fields(fields, 0);
    builder.field_builder::<Int16Builder>(0).unwrap().append_slice(&[1, 2]).unwrap();
    builder.append(true).unwrap();
    builder.append(true).unwrap();
    assert!(!builder.is_empty());
    let arr = builder.finish();
    assert_eq!(2, arr.len());
    assert_eq!(0, arr.null_count());
    assert_eq!(&None, arr.data().null_bitmap());
    assert_eq!(1, arr.num_columns());
    assert_eq!(2, arr.column(0).len());
    assert_eq!(
        &DataType::Struct(vec![Field::new("a", DataType::Int16, true)]),
        arr.data_type()
    );
    assert!(builder.is_empty());
    // the field builders were finished too
    assert_eq!(0, builder.field_builder::<Int16Builder>(0).unwrap().len());
}

#[test]
fn struct_builder_nested_finish_resets_children() {
    let inner = vec![Field::new("x", DataType::Int32, false)];
    let fields = vec![Field::new("s", DataType::Struct(inner), false)];
    let mut builder = StructBuilder::from_fields(fields, 0);
    {
        let child = builder.field_builder::<StructBuilder>(0).unwrap();
        child.field_builder::<Int32Builder>(0).unwrap().append_value(7).unwrap();
        child.append(true).unwrap();
    }
    builder.append(true).unwrap();
    let arr = builder.finish();
    assert_eq!(1, arr.len());
    assert_eq!(1, arr.column(0).len());
    assert_eq!(1, arr.column(0).data().child_data()[0].len());
    let child = builder.field_builder::<StructBuilder>(0).unwrap();
    assert_eq!(0, child.len());
    assert_eq!(0, child.field_builder::<Int32Builder>(0).unwrap().len());
}

#[test]
fn make_builder_matches_declared_types() {
    let mut b = make_builder(&DataType::Boolean, 1);
    assert!(BooleanBuilder::downcast_mut(&mut b).is_some());
    assert!(Int32Builder::downcast_ref(&b).is_none());
    let b = make_builder(&DataType::Binary, 1);
    assert!(BinaryBuilder::downcast_ref(&b).is_some());
    let b = make_builder(&DataType::FixedSizeBinary(4), 1);
    assert!(FixedSizeBinaryBuilder::downcast_ref(&b).is_some());
    let b = make_builder(&DataType::Decimal(10, 2), 1);
    assert!(DecimalBuilder::downcast_ref(&b).is_some());
    let b = make_builder(&DataType::Date64, 1);
    assert!(Date64Builder::downcast_ref(&b).is_some());
    let b = make_builder(&DataType::Time32(TimeUnit::Millisecond), 1);
    assert!(Time32MillisecondBuilder::downcast_ref(&b).is_some());
    let b = make_builder(&DataType::Time64(TimeUnit::Microsecond), 1);
    assert!(Time64MicrosecondBuilder::downcast_ref(&b).is_some());
    let b = make_builder(&DataType::Timestamp(TimeUnit::Microsecond, None), 1);
    assert!(TimestampMicrosecondBuilder::downcast_ref(&b).is_some());
    assert!(TimestampSecondBuilder::downcast_ref(&b).is_none());
    let b = make_builder(&DataType::Timestamp(TimeUnit::Second, Some("UTC".to_string())), 1);
    assert!(TimestampSecondBuilder::downcast_ref(&b).is_some());
    let b = make_builder(&DataType::Interval(IntervalUnit::DayTime), 1);
    assert!(IntervalDayTimeBuilder::downcast_ref(&b).is_some());
    let b = make_builder(&DataType::Duration(TimeUnit::Nanosecond), 1);
    assert!(DurationNanosecondBuilder::downcast_ref(&b).is_some());
    let b = make_builder(&DataType::Struct(vec![]), 1);
    assert!(matches!(b, AnyBuilder::Struct(_)));
}

#[test]
fn make_builder_supports_what_it_says() {
    assert!(is_supported(&DataType::Int16));
    assert!(is_supported(&DataType::Struct(vec![Field::new("a", DataType::Utf8, false)])));
    assert!(!is_supported(&DataType::Null));
    assert!(!is_supported(&DataType::Float16));
    assert!(!is_supported(&DataType::Time32(TimeUnit::Nanosecond)));
    assert!(!is_supported(&DataType::Time64(TimeUnit::Second)));
    assert!(!is_supported(&DataType::LargeUtf8));
    let list_type = DataType::List(Box::new(Field::new("item", DataType::Int64, true)));
    assert!(!is_supported(&list_type));
    assert!(!is_supported(&DataType::Struct(vec![
        Field::new("f1", DataType::Int16, false),
        Field::new("f2", list_type, false),
    ])));
}

#[test]
fn any_builder_finishes_by_kind() {
    let mut b = make_builder(&DataType::Int32, 0);
    Int32Builder::downcast_mut(&mut b).unwrap().append_slice(&[1, 2, 3]).unwrap();
    assert_eq!(3, b.len());
    assert!(!b.is_empty());
    let arr = b.finish();
    assert_eq!(3, arr.len());
    assert_eq!(&DataType::Int32, arr.data_type());
    assert!(b.is_empty());
}
