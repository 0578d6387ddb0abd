use arrow_builder::array::Int32Array;
use arrow_builder::array_builder::ArrayBuilder;
use arrow_builder::buffer::Buffer;
use arrow_builder::datatypes::{DataType, Field};
use arrow_builder::list_builder::{FixedSizeListBuilder, LargeListBuilder, ListBuilder};
use arrow_builder::primitive_builder::Int32Builder;

#[test]
fn test_list_array_builder() {
    let values_builder = Int32Builder::new(10);
    let mut builder = ListBuilder::new(values_builder);

    //  [[0, 1, 2], [3, 4, 5], [6, 7]]
    builder.values().append_value(0).unwrap();
    builder.values().append_value(1).unwrap();
    builder.values().append_value(2).unwrap();
    builder.append(true).unwrap();
    builder.values().append_value(3).unwrap();
    builder.values().append_value(4).unwrap();
    builder.values().append_value(5).unwrap();
    builder.append(true).unwrap();
    builder.values().append_value(6).unwrap();
    builder.values().append_value(7).unwrap();
    builder.append(true).unwrap();
    let list_array = builder.finish();

    let values = list_array.values().data().buffers()[0].clone();
    assert_eq!(Buffer::from_slice_ref(&[0, 1, 2, 3, 4, 5, 6, 7]), values);
    assert_eq!(
        Buffer::from_slice_ref(&[0, 3, 6, 8]),
        list_array.data().buffers()[0].clone()
    );
    assert_eq!(DataType::Int32, list_array.value_type());
    assert_eq!(3, list_array.len());
    assert_eq!(0, list_array.null_count());
    assert_eq!(6, list_array.value_offsets()[2]);
    assert_eq!(2, list_array.value_length(2));
    for i in 0..3 {
        assert!(list_array.is_valid(i));
        assert!(!list_array.is_null(i));
    }
}

#[test]
fn test_large_list_array_builder() {
    let values_builder = Int32Builder::new(10);
    let mut builder = LargeListBuilder::new(values_builder);

    //  [[0, 1, 2], [3, 4, 5], [6, 7]]
    builder.values().append_value(0).unwrap();
    builder.values().append_value(1).unwrap();
    builder.values().append_value(2).unwrap();
    builder.append(true).unwrap();
    builder.values().append_value(3).unwrap();
    builder.values().append_value(4).unwrap();
    builder.values().append_value(5).unwrap();
    builder.append(true).unwrap();
    builder.values().append_value(6).unwrap();
    builder.values().append_value(7).unwrap();
    builder.append(true).unwrap();
    let list_array = builder.finish();

    let values = list_array.values().data().buffers()[0].clone();
    assert_eq!(Buffer::from_slice_ref(&[0, 1, 2, 3, 4, 5, 6, 7]), values);
    assert_eq!(
        Buffer::from_slice_ref(&[0i64, 3, 6, 8]),
        list_array.data().buffers()[0].clone()
    );
    assert_eq!(DataType::Int32, list_array.value_type());
    assert_eq!(3, list_array.len());
    assert_eq!(0, list_array.null_count());
    assert_eq!(6, list_array.value_offsets()[2]);
    assert_eq!(2, list_array.value_length(2));
    for i in 0..3 {
        assert!(list_array.is_valid(i));
        assert!(!list_array.is_null(i));
    }
}

#[test]
fn test_list_array_builder_nulls() {
    let values_builder = Int32Builder::new(10);
    let mut builder = ListBuilder::new(values_builder);

    //  [[0, 1, 2], null, [3, null, 5], [6, 7]]
    builder.values().append_value(0).unwrap();
    builder.values().append_value(1).unwrap();
    builder.values().append_value(2).unwrap();
    builder.append(true).unwrap();
    builder.append(false).unwrap();
    builder.values().append_value(3).unwrap();
    builder.values().append_null().unwrap();
    builder.values().append_value(5).unwrap();
    builder.append(true).unwrap();
    builder.values().append_value(6).unwrap();
    builder.values().append_value(7).unwrap();
    builder.append(true).unwrap();
    let list_array = builder.finish();

    assert_eq!(DataType::Int32, list_array.value_type());
    assert_eq!(4, list_array.len());
    assert_eq!(1, list_array.null_count());
    assert_eq!(3, list_array.value_offsets()[2]);
    assert_eq!(3, list_array.value_length(2));
}

#[test]
fn test_large_list_array_builder_nulls() {
    let values_builder = Int32Builder::new(10);
    let mut builder = LargeListBuilder::new(values_builder);

    //  [[0, 1, 2], null, [3, null, 5], [6, 7]]
    builder.values().append_value(0).unwrap();
    builder.values().append_value(1).unwrap();
    builder.values().append_value(2).unwrap();
    builder.append(true).unwrap();
    builder.append(false).unwrap();
    builder.values().append_value(3).unwrap();
    builder.values().append_null().unwrap();
    builder.values().append_value(5).unwrap();
    builder.append(true).unwrap();
    builder.values().append_value(6).unwrap();
    builder.values().append_value(7).unwrap();
    builder.append(true).unwrap();
    let list_array = builder.finish();

    assert_eq!(DataType::Int32, list_array.value_type());
    assert_eq!(4, list_array.len());
    assert_eq!(1, list_array.null_count());
    assert_eq!(3, list_array.value_offsets()[2]);
    assert_eq!(3, list_array.value_length(2));
}

#[test]
fn test_fixed_size_list_array_builder() {
    let values_builder = Int32Builder::new(10);
    let mut builder = FixedSizeListBuilder::new(values_builder, 3);

    //  [[0, 1, 2], null, [3, null, 5], [6, 7, null]]
    builder.values().append_value(0).unwrap();
    builder.values().append_value(1).unwrap();
    builder.values().append_value(2).unwrap();
    builder.append(true).unwrap();
    builder.values().append_null().unwrap();
    builder.values().append_null().unwrap();
    builder.values().append_null().unwrap();
    builder.append(false).unwrap();
    builder.values().append_value(3).unwrap();
    builder.values().append_null().unwrap();
    builder.values().append_value(5).unwrap();
    builder.append(true).unwrap();
    builder.values().append_value(6).unwrap();
    builder.values().append_value(7).unwrap();
    builder.values().append_null().unwrap();
    builder.append(true).unwrap();
    let list_array = builder.finish();

    assert_eq!(DataType::Int32, list_array.value_type());
    assert_eq!(4, list_array.len());
    assert_eq!(1, list_array.null_count());
    assert_eq!(6, list_array.value_offset(2));
    assert_eq!(3, list_array.value_length());
}

#[test]
fn test_list_array_builder_finish() {
    let values_builder = Int32Array::builder(5);
    let mut builder = ListBuilder::new(values_builder);

    builder.values().append_slice(&[1, 2, 3]).unwrap();
    builder.append(true).unwrap();
    builder.values().append_slice(&[4, 5, 6]).unwrap();
    builder.append(true).unwrap();

    let mut arr = builder.finish();
    assert_eq!(2, arr.len());
    assert_eq!(0, builder.len());

    builder.values().append_slice(&[7, 8, 9]).unwrap();
    builder.append(true).unwrap();
    arr = builder.finish();
    assert_eq!(1, arr.len());
    assert_eq!(0, builder.len());
}

#[test]
fn test_fixed_size_list_array_builder_empty() {
    let values_builder = Int32Array::builder(5);
    let mut builder = FixedSizeListBuilder::new(values_builder, 3);

    let arr = builder.finish();
    assert_eq!(0, arr.len());
    assert_eq!(0, builder.len());
}

#[test]
fn test_fixed_size_list_array_builder_finish() {
    let values_builder = Int32Array::builder(5);
    let mut builder = FixedSizeListBuilder::new(values_builder, 3);

    builder.values().append_slice(&[1, 2, 3]).unwrap();
    builder.append(true).unwrap();
    builder.values().append_slice(&[4, 5, 6]).unwrap();
    builder.append(true).unwrap();

    let mut arr = builder.finish();
    assert_eq!(2, arr.len());
    assert_eq!(0, builder.len());

    builder.values().append_slice(&[7, 8, 9]).unwrap();
    builder.append(true).unwrap();
    arr = builder.finish();
    assert_eq!(1, arr.len());
    assert_eq!(0, builder.len());
}

#[test]
fn test_list_list_array_builder() {
    let primitive_builder = Int32Builder::new(10);
    let values_builder = ListBuilder::new(primitive_builder);
    let mut builder = ListBuilder::new(values_builder);

    //  [[[1, 2], [3, 4]], [[5, 6, 7], null, [8]], null, [[9, 10]]]
    builder.values().values().append_value(1).unwrap();
    builder.values().values().append_value(2).unwrap();
    builder.values().append(true).unwrap();
    builder.values().values().append_value(3).unwrap();
    builder.values().values().append_value(4).unwrap();
    builder.values().append(true).unwrap();
    builder.append(true).unwrap();

    builder.values().values().append_value(5).unwrap();
    builder.values().values().append_value(6).unwrap();
    builder.values().values().append_value(7).unwrap();
    builder.values().append(true).unwrap();
    builder.values().append(false).unwrap();
    builder.values().values().append_value(8).unwrap();
    builder.values().append(true).unwrap();
    builder.append(true).unwrap();

    builder.append(false).unwrap();

    builder.values().values().append_value(9).unwrap();
    builder.values().values().append_value(10).unwrap();
    builder.values().append(true).unwrap();
    builder.append(true).unwrap();

    let list_array = builder.finish();

    assert_eq!(4, list_array.len());
    assert_eq!(1, list_array.null_count());
    assert_eq!(
        Buffer::from_slice_ref(&[0, 2, 5, 5, 6]),
        list_array.data().buffers()[0].clone()
    );

    assert_eq!(6, list_array.values().data().len());
    assert_eq!(1, list_array.values().data().null_count());
    assert_eq!(
        Buffer::from_slice_ref(&[0, 2, 4, 7, 7, 8, 10]),
        list_array.values().data().buffers()[0].clone()
    );

    assert_eq!(10, list_array.values().data().child_data()[0].len());
    assert_eq!(0, list_array.values().data().child_data()[0].null_count());
    assert_eq!(
        Buffer::from_slice_ref(&[1, 2, 3, 4, 5, 6, 7, 8, 9, 10]),
        list_array.values().data().child_data()[0].buffers()[0].clone()
    );
}

#[test]
fn list_builder_declares_a_nullable_item_field() {
    let mut builder = ListBuilder::new(Int32Builder::new(0));
    builder.values().append_value(1).unwrap();
    builder.append(true).unwrap();
    let list_array = builder.finish();
    assert_eq!(
        &DataType::List(Box::new(Field::new("item", DataType::Int32, true))),
        list_array.data().data_type()
    );
    assert!(list_array.data().null_bitmap().is_some());

    let mut builder = LargeListBuilder::new(Int32Builder::new(0));
    builder.append(false).unwrap();
    let list_array = builder.finish();
    assert_eq!(
        &DataType::LargeList(Box::new(Field::new("item", DataType::Int32, true))),
        list_array.data().data_type()
    );
    assert_eq!(1, list_array.null_count());
    assert!(list_array.is_null(0));
    assert_eq!(vec![0i64, 0], list_array.value_offsets());
}

#[test]
fn list_builder_with_capacity_and_empty_slots() {
    let mut builder = ListBuilder::with_capacity(Int32Builder::new(0), 100);
    assert!(builder.is_empty());
    builder.append(true).unwrap();
    builder.values().append_slice(&[1, 2]).unwrap();
    builder.append(true).unwrap();
    builder.append(true).unwrap();
    assert_eq!(3, builder.len());
    assert!(!builder.is_empty());
    let list_array = builder.finish();
    assert_eq!(vec![0, 0, 2, 2], list_array.value_offsets());
    assert_eq!(0, list_array.value_length(0));
    assert_eq!(2, list_array.value_length(1));
    assert_eq!(0, list_array.value_length(2));
    assert_eq!(0, list_array.null_count());
    // the offsets start again at a single zero
    builder.values().append_value(5).unwrap();
    builder.append(true).unwrap();
    assert_eq!(vec![0, 1], builder.finish().value_offsets());
}

#[test]
fn fixed_size_list_builder_checks_whole_lists() {
    let mut builder = FixedSizeListBuilder::with_capacity(Int32Builder::new(0), 3, 10);
    assert_eq!(3, builder.value_length());
    assert!(builder.has_whole_lists());
    builder.values().append_slice(&[1, 2, 3]).unwrap();
    builder.append(true).unwrap();
    assert!(builder.has_whole_lists());
    builder.values().append_slice(&[4, 5]).unwrap();
    builder.append(true).unwrap();
    assert!(!builder.has_whole_lists());
    builder.values().append_value(6).unwrap();
    assert!(builder.has_whole_lists());
    builder.values().append_value(7).unwrap();
    assert!(!builder.has_whole_lists());
}

#[test]
fn fixed_size_list_builder_declares_its_type() {
    let mut builder = FixedSizeListBuilder::new(Int32Builder::new(0), 2);
    builder.values().append_slice(&[1, 2]).unwrap();
    builder.append(true).unwrap();
    builder.values().append_slice(&[0, 0]).unwrap();
    builder.append(false).unwrap();
    let arr = builder.finish();
    assert_eq!(
        &DataType::FixedSizeList(Box::new(Field::new("item", DataType::Int32, true)), 2),
        arr.data().data_type()
    );
    assert_eq!(2, arr.len());
    assert_eq!(1, arr.null_count());
    assert!(arr.is_valid(0));
    assert!(arr.is_null(1));
    assert_eq!(2, arr.value_offset(1));
    assert_eq!(4, arr.values().len());
    assert_eq!(0, arr.data().buffers().len());
}
