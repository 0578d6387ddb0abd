use arrow_builder::array::{Int32Array, Int64Array, UInt8Array};
use arrow_builder::buffer::Buffer;
use arrow_builder::datatypes::{DataType, Field};
use arrow_builder::error::ArrowError;
use arrow_builder::types::{Date32Type, Int32Type, Int64Type, UInt8Type};
use arrow_builder::union_array::UnionArray;
use arrow_builder::union_builder::{sort_children, UnionBuilder};

#[test]
fn dense_union_grows_only_the_selected_field() {
    let mut builder = UnionBuilder::new_dense(3);
    builder.append::<Int32Type>("a", 1).unwrap();
    builder.append::<Int64Type>("b", 3).unwrap();
    builder.append::<Int32Type>("a", 4).unwrap();
    builder.append_null().unwrap();
    builder.append::<Int64Type>("b", -5).unwrap();
    let union = builder.build().unwrap();

    assert_eq!(5, union.len());
    assert_eq!(1, union.null_count());
    assert!(union.is_dense());
    assert_eq!(2, union.num_children());
    assert_eq!(&Buffer::from_slice_ref(&[0i8, 1, 0, 0, 1]), &union.data().buffers()[0]);
    assert_eq!(&Buffer::from_slice_ref(&[0i32, 0, 1, 1]), &union.data().buffers()[1]);
    assert_eq!(&Some(Buffer::from_bytes(&[0b0001_0111])), union.data().null_bitmap());
    assert_eq!(
        &DataType::Union(vec![
            Field::new("a", DataType::Int32, false),
            Field::new("b", DataType::Int64, false),
        ]),
        union.data().data_type()
    );
    let a = Int32Array::from_array_ref(&union.child(0)).unwrap();
    assert_eq!(vec![1, 4], a.values());
    assert_eq!(0, a.null_count());
    let b = Int64Array::from_array_ref(&union.child(1)).unwrap();
    assert_eq!(vec![3, -5], b.values());
    assert_eq!(1, union.type_id(1));
    assert_eq!(0, union.type_id(3));
    assert_eq!(1, union.value_offset(2));
}

#[test]
fn sparse_union_grows_every_field_on_every_append() {
    let mut builder = UnionBuilder::new_sparse(0);
    builder.append::<Int32Type>("a", 1).unwrap();
    builder.append::<UInt8Type>("b", 3).unwrap();
    builder.append_null().unwrap();
    builder.append::<Int32Type>("a", 4).unwrap();
    builder.append::<Int64Type>("c", 9).unwrap();
    let union = builder.build().unwrap();

    assert_eq!(5, union.len());
    assert_eq!(1, union.null_count());
    assert!(!union.is_dense());
    assert_eq!(1, union.data().buffers().len());
    assert_eq!(&Buffer::from_slice_ref(&[0i8, 1, 0, 0, 2]), &union.data().buffers()[0]);
    assert_eq!(3, union.num_children());

    let a = Int32Array::from_array_ref(&union.child(0)).unwrap();
    assert_eq!(5, a.len());
    assert_eq!(vec![1, 0, 0, 4, 0], a.values());
    assert_eq!(3, a.null_count());
    assert!(a.is_valid(0) && a.is_null(1) && a.is_null(2) && a.is_valid(3) && a.is_null(4));

    // a field made late has a null slot for every earlier slot
    let b = UInt8Array::from_array_ref(&union.child(1)).unwrap();
    assert_eq!(vec![0, 3, 0, 0, 0], b.values());
    assert_eq!(4, b.null_count());
    let c = Int64Array::from_array_ref(&union.child(2)).unwrap();
    assert_eq!(vec![0, 0, 0, 0, 9], c.values());
    assert_eq!(4, c.null_count());
    assert!(c.is_valid(4));
}

#[test]
fn union_field_keeps_its_first_declared_type() {
    let mut builder = UnionBuilder::new_dense(0);
    builder.append::<Date32Type>("d", 10).unwrap();
    builder.append::<Int32Type>("d", 11).unwrap();
    let union = builder.build().unwrap();
    assert_eq!(
        &DataType::Union(vec![Field::new("d", DataType::Date32, false)]),
        union.data().data_type()
    );
    assert_eq!(2, union.child(0).len());
}

#[test]
fn union_children_come_in_type_id_order_whatever_the_names() {
    let mut builder = UnionBuilder::new_dense(0);
    builder.append::<Int32Type>("zeta", 1).unwrap();
    builder.append::<Int32Type>("alpha", 2).unwrap();
    builder.append::<Int32Type>("mu", 3).unwrap();
    builder.append::<Int32Type>("alpha", 4).unwrap();
    let union = builder.build().unwrap();
    assert_eq!(
        &DataType::Union(vec![
            Field::new("zeta", DataType::Int32, false),
            Field::new("alpha", DataType::Int32, false),
            Field::new("mu", DataType::Int32, false),
        ]),
        union.data().data_type()
    );
    assert_eq!(&Buffer::from_slice_ref(&[0i8, 1, 2, 1]), &union.data().buffers()[0]);
    assert_eq!(vec![2, 4], Int32Array::from_array_ref(&union.child(1)).unwrap().values());
}

#[test]
fn sort_children_is_stable_and_ascending() {
    let sorted = sort_children(vec![(3i8, "a"), (-1, "b"), (3, "c"), (0, "d"), (-1, "e"), (127, "f")]);
    assert_eq!(
        vec![(-1i8, "b"), (-1, "e"), (0, "d"), (3, "a"), (3, "c"), (127, "f")],
        sorted
    );
    assert_eq!(Vec::<(i8, u8)>::new(), sort_children(Vec::<(i8, u8)>::new()));
}

#[test]
fn union_with_more_than_128_fields_is_refused() {
    let mut builder = UnionBuilder::new_dense(0);
    for i in 0..128 {
        builder.append::<UInt8Type>(&format!("f{}", i), i as u8).unwrap();
    }
    builder.append::<UInt8Type>("one too many", 0).unwrap();
    assert!(matches!(builder.build(), Err(ArrowError::InvalidArgumentError(_))));

    let mut builder = UnionBuilder::new_dense(0);
    for i in 0..128 {
        builder.append::<UInt8Type>(&format!("f{}", i), i as u8).unwrap();
    }
    let union = builder.build().unwrap();
    assert_eq!(128, union.num_children());
    assert_eq!(127, union.type_id(127));
}

#[test]
fn union_array_rejects_inconsistent_parts() {
    let ids = Buffer::from_slice_ref(&[0i8, 0]);
    let one_offset = Buffer::from_slice_ref(&[0i32]);
    let r = UnionArray::try_new(ids.clone(), Some(one_offset), Vec::new(), None);
    assert!(matches!(r, Err(ArrowError::InvalidArgumentError(_))));

    let far = Buffer::from_slice_ref(&[0i32, 3]);
    let r = UnionArray::try_new(ids.clone(), Some(far), Vec::new(), None);
    assert!(matches!(r, Err(ArrowError::InvalidArgumentError(_))));

    let negative = Buffer::from_slice_ref(&[0i8, -1]);
    let r = UnionArray::try_new(negative, None, Vec::new(), None);
    assert!(matches!(r, Err(ArrowError::InvalidArgumentError(_))));

    let ok = Buffer::from_slice_ref(&[0i32, 2]);
    assert!(UnionArray::try_new(ids, Some(ok), Vec::new(), None).is_ok());
}

#[test]
fn empty_union_builds() {
    let union = UnionBuilder::new_sparse(10).build().unwrap();
    assert_eq!(0, union.len());
    assert_eq!(0, union.num_children());
    let union = UnionBuilder::new_dense(10).build().unwrap();
    assert_eq!(0, union.len());
    assert!(union.is_dense());
}
