use arrow_builder::array::{make_array, BooleanArray, Int32Array, UInt16Array};
use arrow_builder::array_data::{clone_array_data, count_nulls, ArrayData};
use arrow_builder::binary_array::{FixedSizeBinaryArray, StringArray};
use arrow_builder::bit_util::{ceil, count_set_bits, get_bit, round_upto_multiple_of_64, set_bit};
use arrow_builder::buffer::{Buffer, MutableBuffer};
use arrow_builder::byte_map::{bytes_eq, bytes_to_vec, ByteMap};
use arrow_builder::byte_order::{get_native, i128_to_le_bytes, is_little_endian, put_native};
use arrow_builder::datatypes::{
    clone_data_type, clone_field, data_type_eq, field_eq, fields_eq, DataType, Field,
    IntervalUnit, TimeUnit,
};
use arrow_builder::native::{read_value, write_value, ArrowNativeType, OffsetSizeTrait};
use arrow_builder::primitive_builder::any_false;
use arrow_builder::string_util::string_of_bytes;
use arrow_builder::types::{ArrowPrimitiveType, Float64Type, TimestampNanosecondType};

#[test]
fn bit_util_rounds_and_counts() {
    assert_eq!(0, ceil(0, 8));
    assert_eq!(1, ceil(1, 8));
    assert_eq!(1, ceil(8, 8));
    assert_eq!(2, ceil(9, 8));
    assert_eq!(4, ceil(10, 3));
    assert_eq!(0, round_upto_multiple_of_64(0));
    assert_eq!(64, round_upto_multiple_of_64(1));
    assert_eq!(64, round_upto_multiple_of_64(64));
    assert_eq!(128, round_upto_multiple_of_64(65));
    let mut data = vec![0u8; 2];
    set_bit(&mut data, 0);
    set_bit(&mut data, 9);
    set_bit(&mut data, 9);
    set_bit(&mut data, 15);
    assert_eq!(vec![0b0000_0001, 0b1000_0010], data);
    assert!(get_bit(&data, 9));
    assert!(!get_bit(&data, 8));
    assert_eq!(3, count_set_bits(&data));
    assert_eq!(0, count_set_bits(&[]));
    assert_eq!(8, count_set_bits(&[0xff]));
}

#[test]
fn byte_order_is_the_machines() {
    assert_eq!(1u16.to_ne_bytes()[0] == 1, is_little_endian());
    let mut out = vec![9u8];
    put_native(0x0102_0304, 4, &mut out);
    put_native(0xabcd, 2, &mut out);
    let mut expected = vec![9u8];
    expected.extend_from_slice(&0x0102_0304u32.to_ne_bytes());
    expected.extend_from_slice(&0xabcdu16.to_ne_bytes());
    assert_eq!(expected, out);
    assert_eq!(0x0102_0304, get_native(&out, 1, 4));
    assert_eq!(0xabcd, get_native(&out, 5, 2));
    assert_eq!(9, get_native(&out, 0, 1));
    assert_eq!(0, get_native(&out, 0, 0));
    assert_eq!(1i128.to_le_bytes().to_vec(), i128_to_le_bytes(1));
    assert_eq!((-2i128).to_le_bytes().to_vec(), i128_to_le_bytes(-2));
}

#[test]
fn native_values_round_trip() {
    let mut out: Vec<u8> = Vec::new();
    write_value(-7i16, &mut out);
    write_value(i16::MIN, &mut out);
    assert_eq!(4, out.len());
    assert_eq!(-7i16, read_value::<i16>(&out, 0));
    assert_eq!(i16::MIN, read_value::<i16>(&out, 1));
    assert_eq!(0xfff9, (-7i16).to_bits());
    assert_eq!(-7i16, i16::from_bits(0xfff9));
    assert_eq!(u64::MAX, (-1i64).to_bits());
    assert_eq!(i64::MIN, i64::from_bits(1u64 << 63));
    assert_eq!(Some(255u8), u8::from_usize(255));
    assert_eq!(None, u8::from_usize(256));
    assert_eq!(Some(127i8), i8::from_usize(127));
    assert_eq!(None, i8::from_usize(128));
    assert_eq!(None, (-1i32).to_usize());
    assert_eq!(Some(5), 5i32.to_usize());
    assert_eq!(4, i32::size());
    assert_eq!(8, u64::size());
    assert!(!<i32 as OffsetSizeTrait>::is_large());
    assert!(<i64 as OffsetSizeTrait>::is_large());
    assert_eq!(5i64, <i64 as OffsetSizeTrait>::from_index(5));
    assert_eq!(3, <i32 as OffsetSizeTrait>::span(4, 7));
}

#[test]
fn mutable_buffer_grows_by_rounding_or_doubling() {
    let mut b = MutableBuffer::new(1);
    assert_eq!(64, b.capacity());
    assert!(b.is_empty());
    b.reserve(64);
    assert_eq!(64, b.capacity());
    b.resize(65, 7);
    assert_eq!(128, b.capacity());
    assert_eq!(65, b.len());
    assert_eq!(7, b.as_slice()[64]);
    b.reserve(1000);
    assert_eq!(1088, b.capacity());
    b.resize(2, 0);
    assert_eq!(&[7, 7], b.as_slice());
    b.push(1u8);
    b.extend_from_slice(&[2u8, 3]);
    b.set_bit(0);
    assert!(b.get_bit(0));
    assert!(!b.get_bit(3));
    assert_eq!(&[7, 7, 1, 2, 3], b.into_buffer().as_slice());
    let z = MutableBuffer::from_len_zeroed(3);
    assert_eq!(&[0, 0, 0], z.as_slice());
    assert_eq!(64, z.capacity());
}

#[test]
fn buffer_reads_values_and_bits() {
    let b = Buffer::from_slice_ref(&[1u16, 0x8000]);
    assert_eq!(4, b.len());
    assert!(!b.is_empty());
    assert_eq!(0x8000, b.value::<u16>(1));
    assert_eq!(2, b.count_set_bits());
    assert_eq!(b, b.clone());
    let bits = Buffer::from_bytes(&[0b101]);
    assert!(bits.get_bit(0) && !bits.get_bit(1) && bits.get_bit(2));
}

#[test]
fn data_types_compare_and_copy_by_content() {
    let nested = DataType::Struct(vec![
        Field::new("a", DataType::Timestamp(TimeUnit::Second, Some("UTC".to_string())), true),
        Field::new(
            "b",
            DataType::Dictionary(Box::new(DataType::Int8), Box::new(DataType::Utf8)),
            false,
        ),
        Field::new(
            "c",
            DataType::FixedSizeList(Box::new(Field::new("item", DataType::Int32, true)), 3),
            false,
        ),
    ]);
    let copy = clone_data_type(&nested);
    assert_eq!(nested, copy);
    assert_eq!(nested, nested.clone());
    assert!(data_type_eq(&nested, &copy));
    assert!(!data_type_eq(&nested, &DataType::Struct(vec![])));
    assert!(!data_type_eq(
        &DataType::Timestamp(TimeUnit::Second, None),
        &DataType::Timestamp(TimeUnit::Second, Some("UTC".to_string()))
    ));
    assert!(!data_type_eq(&DataType::Time32(TimeUnit::Second), &DataType::Time64(TimeUnit::Second)));
    assert!(data_type_eq(
        &DataType::Interval(IntervalUnit::DayTime),
        &DataType::Interval(IntervalUnit::DayTime)
    ));
    assert!(!data_type_eq(&DataType::Decimal(3, 1), &DataType::Decimal(3, 2)));
    let f = Field::new("x", DataType::Int8, true);
    assert_eq!("x", f.name());
    assert_eq!(&DataType::Int8, f.data_type());
    assert!(f.is_nullable());
    assert!(field_eq(&f, &clone_field(&f)));
    assert!(!field_eq(&f, &Field::new("x", DataType::Int8, false)));
    assert!(!field_eq(&f, &Field::new("y", DataType::Int8, true)));
    assert!(fields_eq(&vec![f.clone()], &vec![f.clone()]));
    assert!(!fields_eq(&vec![f.clone()], &vec![]));
    assert_eq!(DataType::Float64, Float64Type::data_type());
    assert_eq!(
        DataType::Timestamp(TimeUnit::Nanosecond, None),
        TimestampNanosecondType::data_type()
    );
}

#[test]
fn array_data_counts_nulls_from_the_bitmap() {
    let bitmap = Some(Buffer::from_bytes(&[0b0110_1001]));
    assert_eq!(4, count_nulls(&bitmap, 0, 8));
    assert_eq!(2, count_nulls(&bitmap, 1, 2));
    assert_eq!(1, count_nulls(&bitmap, 2, 2));
    assert_eq!(0, count_nulls(&None, 0, 8));
    let data = ArrayData::builder(DataType::UInt16)
        .len(3)
        .offset(1)
        .add_buffer(Buffer::from_slice_ref(&[9u16, 1, 2, 3]))
        .null_bit_buffer(Buffer::from_bytes(&[0b1010]))
        .build();
    assert_eq!(1, data.null_count());
    assert_eq!(1, data.offset());
    assert!(!data.is_empty());
    assert!(data.is_valid(0) && data.is_null(1) && data.is_valid(2));
    assert_eq!(data, clone_array_data(&data));
    let arr = UInt16Array::try_new(data).unwrap();
    assert_eq!(vec![1, 2, 3], arr.values());
    assert!(arr.is_null(1));
    let counted = ArrayData::builder(DataType::UInt16).len(3).null_count(2).build();
    assert_eq!(2, counted.null_count());
    let wrong = ArrayData::builder(DataType::UInt16)
        .len(3)
        .buffers(vec![Buffer::from_slice_ref(&[9u16, 1])])
        .child_data(vec![])
        .build();
    assert!(UInt16Array::try_new(wrong).is_none());
}

#[test]
fn typed_arrays_check_the_layout() {
    let erased = make_array(
        ArrayData::builder(DataType::Utf8)
            .len(2)
            .add_buffer(Buffer::from_slice_ref(&[0, 2, 1]))
            .add_buffer(Buffer::from_bytes(b"ab"))
            .build(),
    );
    // offsets that go back
    assert!(StringArray::from_array_ref(&erased).is_none());
    let erased = make_array(
        ArrayData::builder(DataType::Utf8)
            .len(1)
            .add_buffer(Buffer::from_slice_ref(&[0, 1]))
            .add_buffer(Buffer::from_bytes(&[0xff]))
            .build(),
    );
    // bytes that are no text
    assert!(StringArray::from_array_ref(&erased).is_none());
    let erased = make_array(
        ArrayData::builder(DataType::Utf8)
            .len(2)
            .add_buffer(Buffer::from_slice_ref(&[0, 2, 2]))
            .add_buffer(Buffer::from_bytes(b"ab"))
            .build(),
    );
    let arr = StringArray::from_array_ref(&erased).unwrap();
    assert_eq!("ab", arr.value(0));
    assert_eq!("", arr.value(1));
    assert!(Int32Array::from_array_ref(&erased).is_none());

    let fixed = make_array(
        ArrayData::builder(DataType::FixedSizeBinary(2))
            .len(2)
            .add_buffer(Buffer::from_bytes(b"abcd"))
            .build(),
    );
    let arr = FixedSizeBinaryArray::from_array_ref(&fixed).unwrap();
    assert_eq!(b"cd".to_vec(), arr.value(1));
    let short = make_array(
        ArrayData::builder(DataType::FixedSizeBinary(3))
            .len(2)
            .add_buffer(Buffer::from_bytes(b"abcd"))
            .build(),
    );
    assert!(FixedSizeBinaryArray::from_array_ref(&short).is_none());
}

#[test]
fn boolean_array_constructors() {
    let arr = BooleanArray::from_options(vec![Some(true), None, Some(false)]);
    assert_eq!(3, arr.len());
    assert!(!arr.is_empty());
    assert_eq!(1, arr.null_count());
    assert!(arr.value(0) && !arr.value(1) && !arr.value(2));
    assert!(arr.is_valid(0) && arr.is_null(1));
    let arr = BooleanArray::from_values(vec![false, true]);
    assert_eq!(&None, arr.data().null_bitmap());
    assert!(arr.value(1));
    assert_eq!(&DataType::Boolean, arr.into_ref().data_type());
}

#[test]
fn byte_map_holds_one_value_for_a_key() {
    let mut map: ByteMap<u8> = ByteMap::new();
    assert_eq!(None, map.get(b"a"));
    map.insert(b"a".to_vec(), 1);
    map.insert(b"b".to_vec(), 2);
    map.insert(b"a".to_vec(), 3);
    assert_eq!(Some(3), map.get(b"a"));
    assert_eq!(Some(2), map.get(b"b"));
    assert_eq!(None, map.get(b""));
    map.clear();
    assert_eq!(None, map.get(b"a"));
    assert!(bytes_eq(b"ab", b"ab"));
    assert!(!bytes_eq(b"ab", b"ac"));
    assert!(!bytes_eq(b"ab", b"a"));
    assert_eq!(b"xyz".to_vec(), bytes_to_vec(b"xyz"));
}

#[test]
fn small_helpers() {
    assert!(any_false(&[true, false]));
    assert!(!any_false(&[true, true]));
    assert!(!any_false(&[]));
    assert_eq!("héllo", string_of_bytes("héllo".as_bytes().to_vec()));
}

#[test]
fn array_data_builder_gathers_children_in_order() {
    let first = ArrayData::builder(DataType::Int32)
        .len(1)
        .add_buffer(Buffer::from_slice_ref(&[1]))
        .build();
    let second = ArrayData::builder(DataType::Int8)
        .len(2)
        .add_buffer(Buffer::from_slice_ref(&[2i8, 3]))
        .build();
    let data = ArrayData::builder(DataType::Struct(vec![
        Field::new("a", DataType::Int32, false),
        Field::new("b", DataType::Int8, false),
    ]))
    .len(1)
    .add_child_data(first.clone())
    .add_child_data(second.clone())
    .build();
    assert_eq!(2, data.child_data().len());
    assert_eq!(&first, &data.child_data()[0]);
    assert_eq!(&second, &data.child_data()[1]);
    assert_eq!(0, data.null_count());
    assert_eq!(&None, data.null_bitmap());
    assert!(data.null_buffer().is_none());
    assert!(data.is_valid(0));
}
