use arrow_builder::array::{
    BooleanArray, Date32Array, Int32Array, Int8Array, TimestampSecondArray,
};
use arrow_builder::array_builder::ArrayBuilder;
use arrow_builder::boolean_builder::BooleanBuilder;
use arrow_builder::buffer::Buffer;
use arrow_builder::datatypes::DataType;
use arrow_builder::error::ArrowError;
use arrow_builder::primitive_builder::{Int32Builder, Int8Builder, UInt16Builder};

#[test]
fn test_append_values() -> Result<(), ArrowError> {
    let mut a = Int8Builder::new(0);
    a.append_value(1)?;
    a.append_null()?;
    a.append_value(-2)?;
    assert_eq!(a.len(), 3);

    // append values
    let values = &[1, 2, 3, 4];
    let is_valid = &[true, true, false, true];
    a.append_values(values, is_valid)?;

    assert_eq!(a.len(), 7);
    let array = a.finish();
    assert_eq!(array.value(0), 1);
    assert_eq!(array.is_null(1), true);
    assert_eq!(array.value(2), -2);
    assert_eq!(array.value(3), 1);
    assert_eq!(array.value(4), 2);
    assert_eq!(array.is_null(5), true);
    assert_eq!(array.value(6), 4);

    Ok(())
}

#[test]
fn test_boolean_array_builder_append_slice() {
    let arr1 = BooleanArray::from_options(vec![Some(true), Some(false), None, None, Some(false)]);

    let mut builder = BooleanArray::builder(0);
    builder.append_slice(&[true, false]).unwrap();
    builder.append_null().unwrap();
    builder.append_null().unwrap();
    builder.append_value(false).unwrap();
    let arr2 = builder.finish();

    assert_eq!(arr1, arr2);
}

#[test]
fn test_boolean_array_builder_append_slice_large() {
    let arr1 = BooleanArray::from_values(vec![true; 513]);

    let mut builder = BooleanArray::builder(512);
    builder.append_slice(&[true; 513]).unwrap();
    let arr2 = builder.finish();

    assert_eq!(arr1, arr2);
}

#[test]
fn test_primitive_array_builder_i32() {
    let mut builder = Int32Array::builder(5);
    for i in 0..5 {
        builder.append_value(i).unwrap();
    }
    let arr = builder.finish();
    assert_eq!(5, arr.len());
    assert_eq!(0, arr.offset());
    assert_eq!(0, arr.null_count());
    for i in 0..5 {
        assert!(!arr.is_null(i));
        assert!(arr.is_valid(i));
        assert_eq!(i as i32, arr.value(i));
    }
}

#[test]
fn test_primitive_array_builder_date32() {
    let mut builder = Date32Array::builder(5);
    for i in 0..5 {
        builder.append_value(i).unwrap();
    }
    let arr = builder.finish();
    assert_eq!(5, arr.len());
    assert_eq!(0, arr.offset());
    assert_eq!(0, arr.null_count());
    for i in 0..5 {
        assert!(!arr.is_null(i));
        assert!(arr.is_valid(i));
        assert_eq!(i as i32, arr.value(i));
    }
}

#[test]
fn test_primitive_array_builder_timestamp_second() {
    let mut builder = TimestampSecondArray::builder(5);
    for i in 0..5 {
        builder.append_value(i).unwrap();
    }
    let arr = builder.finish();
    assert_eq!(5, arr.len());
    assert_eq!(0, arr.offset());
    assert_eq!(0, arr.null_count());
    for i in 0..5 {
        assert!(!arr.is_null(i));
        assert!(arr.is_valid(i));
        assert_eq!(i as i64, arr.value(i));
    }
}

#[test]
fn test_primitive_array_builder_bool() {
    // 00000010 01001000
    let buf = Buffer::from_bytes(&[72_u8, 2_u8]);
    let mut builder = BooleanArray::builder(10);
    for i in 0..10 {
        if i == 3 || i == 6 || i == 9 {
            builder.append_value(true).unwrap();
        } else {
            builder.append_value(false).unwrap();
        }
    }

    let arr = builder.finish();
    assert_eq!(&buf, arr.values());
    assert_eq!(10, arr.len());
    assert_eq!(0, arr.offset());
    assert_eq!(0, arr.null_count());
    for i in 0..10 {
        assert!(!arr.is_null(i));
        assert!(arr.is_valid(i));
        assert_eq!(i == 3 || i == 6 || i == 9, arr.value(i), "failed at {}", i)
    }
}

#[test]
fn test_primitive_array_builder_append_option() {
    let arr1 = Int32Array::from_options(vec![Some(0), None, Some(2), None, Some(4)]);

    let mut builder = Int32Array::builder(5);
    builder.append_option(Some(0)).unwrap();
    builder.append_option(None).unwrap();
    builder.append_option(Some(2)).unwrap();
    builder.append_option(None).unwrap();
    builder.append_option(Some(4)).unwrap();
    let arr2 = builder.finish();

    assert_eq!(arr1.len(), arr2.len());
    assert_eq!(arr1.offset(), arr2.offset());
    assert_eq!(arr1.null_count(), arr2.null_count());
    for i in 0..5 {
        assert_eq!(arr1.is_null(i), arr2.is_null(i));
        assert_eq!(arr1.is_valid(i), arr2.is_valid(i));
        if arr1.is_valid(i) {
            assert_eq!(arr1.value(i), arr2.value(i));
        }
    }
}

#[test]
fn test_primitive_array_builder_append_null() {
    let arr1 = Int32Array::from_options(vec![Some(0), Some(2), None, None, Some(4)]);

    let mut builder = Int32Array::builder(5);
    builder.append_value(0).unwrap();
    builder.append_value(2).unwrap();
    builder.append_null().unwrap();
    builder.append_null().unwrap();
    builder.append_value(4).unwrap();
    let arr2 = builder.finish();

    assert_eq!(arr1.len(), arr2.len());
    assert_eq!(arr1.offset(), arr2.offset());
    assert_eq!(arr1.null_count(), arr2.null_count());
    for i in 0..5 {
        assert_eq!(arr1.is_null(i), arr2.is_null(i));
        assert_eq!(arr1.is_valid(i), arr2.is_valid(i));
        if arr1.is_valid(i) {
            assert_eq!(arr1.value(i), arr2.value(i));
        }
    }
}

#[test]
fn test_primitive_array_builder_append_slice() {
    let arr1 = Int32Array::from_options(vec![Some(0), Some(2), None, None, Some(4)]);

    let mut builder = Int32Array::builder(5);
    builder.append_slice(&[0, 2]).unwrap();
    builder.append_null().unwrap();
    builder.append_null().unwrap();
    builder.append_value(4).unwrap();
    let arr2 = builder.finish();

    assert_eq!(arr1.len(), arr2.len());
    assert_eq!(arr1.offset(), arr2.offset());
    assert_eq!(arr1.null_count(), arr2.null_count());
    for i in 0..5 {
        assert_eq!(arr1.is_null(i), arr2.is_null(i));
        assert_eq!(arr1.is_valid(i), arr2.is_valid(i));
        if arr1.is_valid(i) {
            assert_eq!(arr1.value(i), arr2.value(i));
        }
    }
}

#[test]
fn test_primitive_array_builder_finish() {
    let mut builder = Int32Builder::new(5);
    builder.append_slice(&[2, 4, 6, 8]).unwrap();
    let mut arr = builder.finish();
    assert_eq!(4, arr.len());
    assert_eq!(0, builder.len());

    builder.append_slice(&[1, 3, 5, 7, 9]).unwrap();
    arr = builder.finish();
    assert_eq!(5, arr.len());
    assert_eq!(0, builder.len());
}

#[test]
fn primitive_builder_mixed_appends() {
    let mut a = Int8Builder::new(0);
    a.append_value(1).unwrap();
    a.append_null().unwrap();
    a.append_value(-2).unwrap();
    a.append_values(&[1, 2, 3, 4], &[true, true, false, true]).unwrap();
    assert_eq!(7, a.len());
    let array = a.finish();
    assert_eq!(7, array.len());
    assert_eq!(2, array.null_count());
    assert_eq!(vec![1, 0, -2, 1, 2, 3, 4], array.values());
    for i in 0..7 {
        assert_eq!(i == 1 || i == 5, array.is_null(i));
    }
    assert_eq!(&DataType::Int8, array.data_type());
    assert_eq!(&Some(Buffer::from_bytes(&[0b0101_1101])), array.data().null_bitmap());
}

#[test]
fn primitive_builder_without_nulls_has_no_bitmap() {
    let mut builder = Int32Builder::new(3);
    builder.append_value(1).unwrap();
    builder.append_slice(&[2, 3]).unwrap();
    builder.append_option(Some(4)).unwrap();
    builder.append_values(&[5, 6], &[true, true]).unwrap();
    let arr = builder.finish();
    assert_eq!(6, arr.len());
    assert_eq!(0, arr.null_count());
    assert_eq!(&None, arr.data().null_bitmap());
    assert_eq!(1, arr.data().buffers().len());
}

#[test]
fn primitive_builder_all_valid_after_bitmap_has_no_bitmap() {
    let mut builder = Int32Builder::new(3);
    builder.append_null().unwrap();
    let first = builder.finish();
    assert_eq!(1, first.null_count());
    // the bitmap is still there, but every slot of this round is valid
    builder.append_slice(&[7, 8]).unwrap();
    let second = builder.finish();
    assert_eq!(0, second.null_count());
    assert_eq!(&None, second.data().null_bitmap());
    assert_eq!(vec![7, 8], second.values());
}

#[test]
fn primitive_builder_rejects_mismatched_lengths() {
    let mut builder = Int32Builder::new(3);
    builder.append_value(9).unwrap();
    let r = builder.append_values(&[1, 2, 3], &[true, false]);
    assert!(matches!(r, Err(ArrowError::InvalidArgumentError(_))));
    assert_eq!(1, builder.len());
    let arr = builder.finish();
    assert_eq!(vec![9], arr.values());
    assert_eq!(0, arr.null_count());
}

#[test]
fn boolean_builder_rejects_mismatched_lengths() {
    let mut builder = BooleanBuilder::new(3);
    let r = builder.append_values(&[true], &[true, false]);
    assert!(matches!(r, Err(ArrowError::InvalidArgumentError(_))));
    assert!(builder.is_empty());
}

#[test]
fn boolean_builder_values_and_nulls() {
    let mut builder = BooleanBuilder::new(0);
    builder.append_option(Some(true)).unwrap();
    builder.append_option(None).unwrap();
    builder.append_values(&[true, true, false], &[false, true, true]).unwrap();
    assert_eq!(5, builder.len());
    let arr = builder.finish();
    assert_eq!(2, arr.null_count());
    assert!(arr.value(0));
    assert!(arr.is_null(1));
    assert!(arr.is_null(2));
    assert!(arr.value(3));
    assert!(!arr.value(4));
    assert_eq!(0, builder.len());
    assert_eq!(0, builder.capacity());
}

#[test]
fn primitive_builder_capacity_follows_the_buffer() {
    let mut builder = UInt16Builder::new(5);
    assert_eq!(32, builder.capacity());
    for i in 0..33 {
        builder.append_value(i).unwrap();
    }
    assert_eq!(64, builder.capacity());
    let arr = builder.finish();
    assert_eq!(33, arr.len());
    assert_eq!(0, builder.capacity());
    assert!(builder.is_empty());
    builder.append_value(1).unwrap();
    assert_eq!(32, builder.capacity());
}

#[test]
fn primitive_array_from_values_and_ref() {
    let arr = Int32Array::from_values(vec![3, 1, 2]);
    assert_eq!(0, arr.null_count());
    assert_eq!(vec![3, 1, 2], arr.values());
    let erased = arr.into_ref();
    assert_eq!(3, erased.len());
    assert!(Int32Array::from_array_ref(&erased).is_some());
    assert!(Int8Array::from_array_ref(&erased).is_none());
}
