use arrow_builder::buffer::Buffer;
use arrow_builder::buffer_builder::{
    BooleanBufferBuilder, BufferBuilder, Int32BufferBuilder, UInt8BufferBuilder,
};

#[test]
fn test_builder_i32_empty() {
    let mut b = Int32BufferBuilder::new(5);
    assert_eq!(0, b.len());
    assert_eq!(16, b.capacity());
    let a = b.finish();
    assert_eq!(0, a.len());
}

#[test]
fn test_builder_i32_alloc_zero_bytes() {
    let mut b = Int32BufferBuilder::new(0);
    b.append(123);
    let a = b.finish();
    assert_eq!(4, a.len());
}

#[test]
fn test_builder_i32() {
    let mut b = Int32BufferBuilder::new(5);
    for i in 0..5 {
        b.append(i);
    }
    assert_eq!(16, b.capacity());
    let a = b.finish();
    assert_eq!(20, a.len());
}

#[test]
fn test_builder_i32_grow_buffer() {
    let mut b = Int32BufferBuilder::new(2);
    assert_eq!(16, b.capacity());
    for i in 0..20 {
        b.append(i);
    }
    assert_eq!(32, b.capacity());
    let a = b.finish();
    assert_eq!(80, a.len());
}

#[test]
fn test_builder_finish() {
    let mut b = Int32BufferBuilder::new(5);
    assert_eq!(16, b.capacity());
    for i in 0..10 {
        b.append(i);
    }
    let mut a = b.finish();
    assert_eq!(40, a.len());
    assert_eq!(0, b.len());
    assert_eq!(0, b.capacity());

    // Try build another buffer after cleaning up.
    for i in 0..20 {
        b.append(i)
    }
    assert_eq!(32, b.capacity());
    a = b.finish();
    assert_eq!(80, a.len());
}

#[test]
fn test_reserve() {
    let mut b = UInt8BufferBuilder::new(2);
    assert_eq!(64, b.capacity());
    b.reserve(64);
    assert_eq!(64, b.capacity());
    b.reserve(65);
    assert_eq!(128, b.capacity());

    let mut b = Int32BufferBuilder::new(2);
    assert_eq!(16, b.capacity());
    b.reserve(16);
    assert_eq!(16, b.capacity());
    b.reserve(17);
    assert_eq!(32, b.capacity());
}

#[test]
fn test_append_slice() {
    let mut b = UInt8BufferBuilder::new(0);
    b.append_slice(b"Hello, ");
    b.append_slice(b"World!");
    let buffer = b.finish();
    assert_eq!(13, buffer.len());

    let mut b = Int32BufferBuilder::new(0);
    b.append_slice(&[32, 54]);
    let buffer = b.finish();
    assert_eq!(8, buffer.len());
}

#[test]
fn test_write_bytes() {
    let mut b = BooleanBufferBuilder::new(4);
    b.append(false);
    b.append(true);
    b.append(false);
    b.append(true);
    assert_eq!(4, b.len());
    assert_eq!(512, b.capacity());
    let buffer = b.finish();
    assert_eq!(1, buffer.len());

    let mut b = BooleanBufferBuilder::new(4);
    b.append_slice(&[false, true, false, true]);
    assert_eq!(4, b.len());
    assert_eq!(512, b.capacity());
    let buffer = b.finish();
    assert_eq!(1, buffer.len());
}

#[test]
fn test_boolean_builder_increases_buffer_len() {
    // 00000010 01001000
    let buf = Buffer::from_bytes(&[72_u8, 2_u8]);
    let mut builder = BooleanBufferBuilder::new(8);

    for i in 0..16 {
        if i == 3 || i == 6 || i == 9 {
            builder.append(true);
        } else {
            builder.append(false);
        }
    }
    let buf2 = builder.finish();

    assert_eq!(buf.len(), buf2.len());
    assert_eq!(buf.as_slice(), buf2.as_slice());
}

#[test]
fn bit_builder_packs_lsb_first() {
    let mut b = BooleanBufferBuilder::new(0);
    b.append_slice(&[false, true, false, true]);
    let buffer = b.finish();
    assert_eq!(&[0b00001010u8], buffer.as_slice());
    assert_eq!(0, b.len());
    assert_eq!(0, b.capacity());
}

#[test]
fn bit_builder_append_n_sets_only_true_bits() {
    let mut b = BooleanBufferBuilder::new(0);
    b.append_n(3, true);
    b.append_n(4, false);
    b.append_n(3, true);
    assert_eq!(10, b.len());
    let buffer = b.finish();
    assert_eq!(&[0b1000_0111u8, 0b0000_0011u8], buffer.as_slice());
    assert_eq!(6, buffer.count_set_bits());
}

#[test]
fn bit_builder_advance_leaves_bits_off() {
    let mut b = BooleanBufferBuilder::new(0);
    b.append(true);
    b.advance(9);
    b.append(true);
    assert_eq!(11, b.len());
    let buffer = b.finish();
    assert_eq!(&[0b0000_0001u8, 0b0000_0100u8], buffer.as_slice());
}

#[test]
fn bit_builder_reserve_grows_capacity_only() {
    let mut b = BooleanBufferBuilder::new(0);
    assert_eq!(0, b.capacity());
    b.reserve(1);
    assert_eq!(512, b.capacity());
    assert_eq!(0, b.len());
    b.reserve(512);
    assert_eq!(512, b.capacity());
    b.reserve(513);
    assert_eq!(1024, b.capacity());
    assert!(b.is_empty());
}

#[test]
fn typed_builder_freezes_native_bytes() {
    let mut b = BufferBuilder::<i32>::new(0);
    b.append_slice(&[1, -2, 0x0102_0304]);
    assert_eq!(3, b.len());
    let buffer = b.finish();
    let mut expected: Vec<u8> = Vec::new();
    expected.extend_from_slice(&1i32.to_ne_bytes());
    expected.extend_from_slice(&(-2i32).to_ne_bytes());
    expected.extend_from_slice(&0x0102_0304i32.to_ne_bytes());
    assert_eq!(expected.as_slice(), buffer.as_slice());
    assert_eq!(vec![1, -2, 0x0102_0304], buffer.typed_data::<i32>());
}

#[test]
fn typed_builder_all_widths_round_trip() {
    let mut b = BufferBuilder::<i8>::new(0);
    b.append_slice(&[i8::MIN, -1, 0, 1, i8::MAX]);
    assert_eq!(vec![i8::MIN, -1, 0, 1, i8::MAX], b.finish().typed_data::<i8>());

    let mut b = BufferBuilder::<i16>::new(0);
    b.append_slice(&[i16::MIN, -1, 0, 1, i16::MAX]);
    let buffer = b.finish();
    assert_eq!(&i16::MIN.to_ne_bytes()[..], &buffer.as_slice()[0..2]);
    assert_eq!(vec![i16::MIN, -1, 0, 1, i16::MAX], buffer.typed_data::<i16>());

    let mut b = BufferBuilder::<i64>::new(0);
    b.append_slice(&[i64::MIN, -1, 0, 1, i64::MAX]);
    let buffer = b.finish();
    assert_eq!(&i64::MIN.to_ne_bytes()[..], &buffer.as_slice()[0..8]);
    assert_eq!(vec![i64::MIN, -1, 0, 1, i64::MAX], buffer.typed_data::<i64>());

    let mut b = BufferBuilder::<u16>::new(0);
    b.append_slice(&[0, 0x1234, u16::MAX]);
    let buffer = b.finish();
    assert_eq!(&0x1234u16.to_ne_bytes()[..], &buffer.as_slice()[2..4]);
    assert_eq!(vec![0, 0x1234, u16::MAX], buffer.typed_data::<u16>());

    let mut b = BufferBuilder::<u32>::new(0);
    b.append_slice(&[0, 0x1234_5678, u32::MAX]);
    let buffer = b.finish();
    assert_eq!(&0x1234_5678u32.to_ne_bytes()[..], &buffer.as_slice()[4..8]);
    assert_eq!(vec![0, 0x1234_5678, u32::MAX], buffer.typed_data::<u32>());

    let mut b = BufferBuilder::<u64>::new(0);
    b.append_slice(&[0, 0x1234_5678_9abc_def0, u64::MAX]);
    let buffer = b.finish();
    assert_eq!(&0x1234_5678_9abc_def0u64.to_ne_bytes()[..], &buffer.as_slice()[8..16]);
    assert_eq!(vec![0, 0x1234_5678_9abc_def0, u64::MAX], buffer.typed_data::<u64>());
}

#[test]
fn typed_builder_advance_zero_fills() {
    let mut b = BufferBuilder::<u16>::new(0);
    b.append(0xffff);
    b.advance(2);
    b.append_n(2, 7);
    assert_eq!(5, b.len());
    assert!(!b.is_empty());
    assert_eq!(vec![0xffff, 0, 0, 7, 7], b.finish().typed_data::<u16>());
    assert!(b.is_empty());
}

#[test]
fn buffer_from_slice_ref_matches_builder() {
    let mut b = BufferBuilder::<i64>::new(0);
    b.append_slice(&[0, 3, 6, 8]);
    assert_eq!(Buffer::from_slice_ref(&[0i64, 3, 6, 8]), b.finish());
}
