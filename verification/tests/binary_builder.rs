use arrow_builder::array_builder::ArrayBuilder;
use arrow_builder::binary_array::{FixedSizeBinaryArray, DecimalArray};
use arrow_builder::binary_builder::{BinaryBuilder, LargeBinaryBuilder};
use arrow_builder::buffer::Buffer;
use arrow_builder::datatypes::DataType;
use arrow_builder::error::ArrowError;
use arrow_builder::fixed_binary_builder::{DecimalBuilder, FixedSizeBinaryBuilder};
use arrow_builder::string_builder::{LargeStringBuilder, StringBuilder};

#[test]
fn test_binary_array_builder() {
    let mut builder = BinaryBuilder::new(20);

    builder.append_byte(b'h').unwrap();
    builder.append_byte(b'e').unwrap();
    builder.append_byte(b'l').unwrap();
    builder.append_byte(b'l').unwrap();
    builder.append_byte(b'o').unwrap();
    builder.append(true).unwrap();
    builder.append(true).unwrap();
    builder.append_byte(b'w').unwrap();
    builder.append_byte(b'o').unwrap();
    builder.append_byte(b'r').unwrap();
    builder.append_byte(b'l').unwrap();
    builder.append_byte(b'd').unwrap();
    builder.append(true).unwrap();

    let binary_array = builder.finish();

    assert_eq!(3, binary_array.len());
    assert_eq!(0, binary_array.null_count());
    assert_eq!([b'h', b'e', b'l', b'l', b'o'], binary_array.value(0)[..]);
    assert_eq!([] as [u8; 0], binary_array.value(1)[..]);
    assert_eq!([b'w', b'o', b'r', b'l', b'd'], binary_array.value(2)[..]);
    assert_eq!(5, binary_array.value_offsets()[2]);
    assert_eq!(5, binary_array.value_length(2));
}

#[test]
fn test_large_binary_array_builder() {
    let mut builder = LargeBinaryBuilder::new(20);

    builder.append_byte(b'h').unwrap();
    builder.append_byte(b'e').unwrap();
    builder.append_byte(b'l').unwrap();
    builder.append_byte(b'l').unwrap();
    builder.append_byte(b'o').unwrap();
    builder.append(true).unwrap();
    builder.append(true).unwrap();
    builder.append_byte(b'w').unwrap();
    builder.append_byte(b'o').unwrap();
    builder.append_byte(b'r').unwrap();
    builder.append_byte(b'l').unwrap();
    builder.append_byte(b'd').unwrap();
    builder.append(true).unwrap();

    let binary_array = builder.finish();

    assert_eq!(3, binary_array.len());
    assert_eq!(0, binary_array.null_count());
    assert_eq!([b'h', b'e', b'l', b'l', b'o'], binary_array.value(0)[..]);
    assert_eq!([] as [u8; 0], binary_array.value(1)[..]);
    assert_eq!([b'w', b'o', b'r', b'l', b'd'], binary_array.value(2)[..]);
    assert_eq!(5, binary_array.value_offsets()[2]);
    assert_eq!(5, binary_array.value_length(2));
}

#[test]
fn test_string_array_builder() {
    let mut builder = StringBuilder::new(20);

    builder.append_value("hello").unwrap();
    builder.append(true).unwrap();
    builder.append_value("world").unwrap();

    let string_array = builder.finish();

    assert_eq!(3, string_array.len());
    assert_eq!(0, string_array.null_count());
    assert_eq!("hello", string_array.value(0));
    assert_eq!("", string_array.value(1));
    assert_eq!("world", string_array.value(2));
    assert_eq!(5, string_array.value_offsets()[2]);
    assert_eq!(5, string_array.value_length(2));
}

#[test]
fn test_fixed_size_binary_builder() {
    let mut builder = FixedSizeBinaryBuilder::new(15, 5);

    //  [b"hello", null, "arrow"]
    builder.append_value(b"hello").unwrap();
    builder.append_null().unwrap();
    builder.append_value(b"arrow").unwrap();
    let fixed_size_binary_array: FixedSizeBinaryArray = builder.finish();

    assert_eq!(
        &DataType::FixedSizeBinary(5),
        fixed_size_binary_array.data_type()
    );
    assert_eq!(3, fixed_size_binary_array.len());
    assert_eq!(1, fixed_size_binary_array.null_count());
    assert_eq!(10, fixed_size_binary_array.value_offset(2));
    assert_eq!(5, fixed_size_binary_array.value_length());
}

#[test]
fn test_decimal_builder() {
    let mut builder = DecimalBuilder::new(30, 23, 6);

    builder.append_value(8_887_000_000).unwrap();
    builder.append_null().unwrap();
    builder.append_value(-8_887_000_000).unwrap();
    let decimal_array: DecimalArray = builder.finish();

    assert_eq!(&DataType::Decimal(23, 6), decimal_array.data_type());
    assert_eq!(3, decimal_array.len());
    assert_eq!(1, decimal_array.null_count());
    assert_eq!(32, decimal_array.value_offset(2));
    assert_eq!(16, decimal_array.value_length());
}

#[test]
fn test_string_array_builder_finish() {
    let mut builder = StringBuilder::new(10);

    builder.append_value("hello").unwrap();
    builder.append_value("world").unwrap();

    let mut arr = builder.finish();
    assert_eq!(2, arr.len());
    assert_eq!(0, builder.len());

    builder.append_value("arrow").unwrap();
    arr = builder.finish();
    assert_eq!(1, arr.len());
    assert_eq!(0, builder.len());
}

#[test]
fn test_string_array_builder_append_string() {
    let mut builder = StringBuilder::new(20);

    let var = "hello".to_owned();
    builder.append_value(&var).unwrap();
    builder.append(true).unwrap();
    builder.append_value("world").unwrap();

    let string_array = builder.finish();

    assert_eq!(3, string_array.len());
    assert_eq!(0, string_array.null_count());
    assert_eq!("hello", string_array.value(0));
    assert_eq!("", string_array.value(1));
    assert_eq!("world", string_array.value(2));
    assert_eq!(5, string_array.value_offsets()[2]);
    assert_eq!(5, string_array.value_length(2));
}

#[test]
fn binary_builder_append_value_and_null() {
    let mut builder = BinaryBuilder::new(0);
    builder.append_value(b"ab").unwrap();
    builder.append_null().unwrap();
    builder.append_value(&[]).unwrap();
    builder.append_value(&[1, 2, 3]).unwrap();
    assert_eq!(4, builder.len());
    assert!(!builder.is_empty());
    let arr = builder.finish();
    assert_eq!(&DataType::Binary, arr.data().data_type());
    assert_eq!(1, arr.null_count());
    assert!(arr.is_valid(0));
    assert!(arr.is_null(1));
    assert_eq!(vec![0, 2, 2, 2, 5], arr.value_offsets());
    assert_eq!(vec![b'a', b'b'], arr.value(0));
    assert_eq!(Vec::<u8>::new(), arr.value(1));
    assert_eq!(vec![1, 2, 3], arr.value(3));
    assert_eq!(3, arr.value_offset(4) - arr.value_offset(3));
    assert_eq!(&Buffer::from_bytes(&[b'a', b'b', 1, 2, 3]), &arr.data().buffers()[1]);
    assert_eq!(0, arr.data().child_data().len());
    assert!(builder.is_empty());
}

#[test]
fn large_builders_declare_large_types() {
    let mut builder = LargeBinaryBuilder::new(0);
    builder.append_value(b"x").unwrap();
    assert_eq!(&DataType::LargeBinary, builder.finish().data().data_type());

    let mut builder = LargeStringBuilder::with_capacity(2, 8);
    builder.append_value("héllo").unwrap();
    builder.append_null().unwrap();
    let arr = builder.finish();
    assert_eq!(&DataType::LargeUtf8, arr.data().data_type());
    assert_eq!("héllo", arr.value(0));
    assert_eq!(6, arr.value_length(0));
    assert_eq!("héllo".as_bytes(), arr.value_bytes(0).as_slice());
    assert!(arr.is_null(1));
    assert_eq!(vec![0i64, 6, 6], arr.value_offsets());
    assert_eq!(6, arr.value_data().len());
}

#[test]
fn fixed_size_binary_builder_rejects_other_widths() {
    let mut builder = FixedSizeBinaryBuilder::new(0, 5);
    let r = builder.append_value(b"hell");
    assert!(matches!(r, Err(ArrowError::InvalidArgumentError(_))));
    let r = builder.append_value(b"hello!");
    assert!(matches!(r, Err(ArrowError::InvalidArgumentError(_))));
    assert_eq!(0, builder.len());
    builder.append_value(b"hello").unwrap();
    builder.append_null().unwrap();
    let arr = builder.finish();
    assert_eq!(2, arr.len());
    assert_eq!(b"hello".to_vec(), arr.value(0));
    assert_eq!(vec![0u8; 5], arr.value(1));
    assert!(arr.is_null(1));
    assert_eq!(&Buffer::from_bytes(b"hello\0\0\0\0\0"), &arr.data().buffers()[0]);
}

#[test]
fn fixed_size_binary_builder_with_negative_width_takes_nothing() {
    let mut builder = FixedSizeBinaryBuilder::new(0, -1);
    assert!(builder.append_value(&[]).is_err());
    assert!(builder.append_value(&[1]).is_err());
    assert!(builder.is_empty());
}

#[test]
fn decimal_builder_writes_little_endian_twos_complement() {
    let mut builder = DecimalBuilder::new(0, 10, 2);
    builder.append_value(8_887_000_000).unwrap();
    builder.append_null().unwrap();
    builder.append_value(-8_887_000_000).unwrap();
    builder.append_value(i128::MIN).unwrap();
    builder.append_value(i128::MAX).unwrap();
    builder.append_value(-1).unwrap();
    assert_eq!(6, builder.len());
    let arr = builder.finish();
    assert_eq!(8_887_000_000i128.to_le_bytes().to_vec(), arr.value_bytes(0));
    assert_eq!(vec![0u8; 16], arr.value_bytes(1));
    assert_eq!((-8_887_000_000i128).to_le_bytes().to_vec(), arr.value_bytes(2));
    assert_eq!(i128::MIN.to_le_bytes().to_vec(), arr.value_bytes(3));
    assert_eq!(i128::MAX.to_le_bytes().to_vec(), arr.value_bytes(4));
    assert_eq!(vec![0xffu8; 16], arr.value_bytes(5));
    assert!(arr.is_null(1));
    assert_eq!(1, arr.null_count());
    assert_eq!(96, arr.data().buffers()[0].len());
    assert!(builder.is_empty());
}
