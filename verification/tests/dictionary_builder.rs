use arrow_builder::array::{Int16Array, Int8Array, UInt32Array, UInt8Array};
use arrow_builder::array_builder::ArrayBuilder;
use arrow_builder::binary_array::StringArray;
use arrow_builder::datatypes::DataType;
use arrow_builder::dictionary_builder::{PrimitiveDictionaryBuilder, StringDictionaryBuilder};
use arrow_builder::error::ArrowError;
use arrow_builder::primitive_builder::PrimitiveBuilder;
use arrow_builder::string_builder::StringBuilder;
use arrow_builder::types::{Int16Type, Int8Type, UInt32Type, UInt8Type};

#[test]
fn test_primitive_dictionary_builder() {
    let key_builder = PrimitiveBuilder::<UInt8Type>::new(3);
    let value_builder = PrimitiveBuilder::<UInt32Type>::new(2);
    let mut builder = PrimitiveDictionaryBuilder::new(key_builder, value_builder);
    builder.append(12345678).unwrap();
    builder.append_null().unwrap();
    builder.append(22345678).unwrap();
    let array = builder.finish();

    assert_eq!(
        array.keys(),
        UInt8Array::from_options(vec![Some(0), None, Some(1)])
    );

    // Values are polymorphic and so require a downcast.
    let av = array.values();
    let ava: UInt32Array = UInt32Array::from_array_ref(&av).unwrap();
    let avs: Vec<u32> = ava.values();

    assert_eq!(array.is_null(0), false);
    assert_eq!(array.is_null(1), true);
    assert_eq!(array.is_null(2), false);

    assert_eq!(avs, vec![12345678, 22345678]);
}

#[test]
fn test_string_dictionary_builder() {
    let key_builder = PrimitiveBuilder::<Int8Type>::new(5);
    let value_builder = StringBuilder::new(2);
    let mut builder = StringDictionaryBuilder::new(key_builder, value_builder);
    builder.append("abc").unwrap();
    builder.append_null().unwrap();
    builder.append("def").unwrap();
    builder.append("def").unwrap();
    builder.append("abc").unwrap();
    let array = builder.finish();

    assert_eq!(
        array.keys(),
        Int8Array::from_options(vec![Some(0), None, Some(1), Some(1), Some(0)])
    );

    // Values are polymorphic and so require a downcast.
    let av = array.values();
    let ava: StringArray = StringArray::from_array_ref(&av).unwrap();

    assert_eq!(ava.value(0), "abc");
    assert_eq!(ava.value(1), "def");
}

#[test]
fn test_string_dictionary_builder_with_existing_dictionary() {
    let dictionary = StringArray::from_options(vec![None, Some("def"), Some("abc")]);

    let key_builder = PrimitiveBuilder::<Int8Type>::new(6);
    let mut builder =
        StringDictionaryBuilder::new_with_dictionary(key_builder, &dictionary).unwrap();
    builder.append("abc").unwrap();
    builder.append_null().unwrap();
    builder.append("def").unwrap();
    builder.append("def").unwrap();
    builder.append("abc").unwrap();
    builder.append("ghi").unwrap();
    let array = builder.finish();

    assert_eq!(
        array.keys(),
        Int8Array::from_options(vec![Some(2), None, Some(1), Some(1), Some(2), Some(3)])
    );

    // Values are polymorphic and so require a downcast.
    let av = array.values();
    let ava: StringArray = StringArray::from_array_ref(&av).unwrap();

    assert_eq!(ava.is_valid(0), false);
    assert_eq!(ava.value(1), "def");
    assert_eq!(ava.value(2), "abc");
    assert_eq!(ava.value(3), "ghi");
}

#[test]
fn test_string_dictionary_builder_with_reserved_null_value() {
    let dictionary: Vec<Option<&str>> = vec![None];
    let dictionary = StringArray::from_options(dictionary);

    let key_builder = PrimitiveBuilder::<Int16Type>::new(4);
    let mut builder =
        StringDictionaryBuilder::new_with_dictionary(key_builder, &dictionary).unwrap();
    builder.append("abc").unwrap();
    builder.append_null().unwrap();
    builder.append("def").unwrap();
    builder.append("abc").unwrap();
    let array = builder.finish();

    assert_eq!(array.is_null(1), true);
    assert_eq!(array.is_valid(1), false);

    let keys: Int16Array = array.keys_array();

    assert_eq!(keys.value(0), 1);
    assert_eq!(keys.is_null(1), true);
    // zero initialization is currently guaranteed by Buffer allocation and resizing
    assert_eq!(keys.value(1), 0);
    assert_eq!(keys.value(2), 2);
    assert_eq!(keys.value(3), 1);
}

#[test]
fn primitive_dictionary_overflows_at_the_257th_key() {
    let key_builder = PrimitiveBuilder::<UInt8Type>::new(257);
    let value_builder = PrimitiveBuilder::<UInt32Type>::new(257);
    let mut builder = PrimitiveDictionaryBuilder::new(key_builder, value_builder);
    // 256 unique keys.
    for i in 0..256 {
        assert_eq!(i as u8, builder.append(i + 1000).unwrap());
    }
    // a value seen before does not need a new key
    assert_eq!(255, builder.append(1255).unwrap());
    assert_eq!(257, builder.len());
    // the 257th value does
    assert_eq!(Err(ArrowError::DictionaryKeyOverflowError), builder.append(1257));
    assert_eq!(257, builder.len());
    assert_eq!(7, builder.append(1007).unwrap());
    let array = builder.finish();
    assert_eq!(258, array.len());
    assert_eq!(256, array.values().len());
}

#[test]
fn string_dictionary_overflows_signed_keys_at_128() {
    let key_builder = PrimitiveBuilder::<Int8Type>::new(0);
    let mut builder = StringDictionaryBuilder::new(key_builder, StringBuilder::new(0));
    for i in 0..128 {
        assert_eq!(i as i8, builder.append(&format!("v{}", i)).unwrap());
    }
    assert_eq!(Err(ArrowError::DictionaryKeyOverflowError), builder.append("one more"));
    assert_eq!(127, builder.append("v127").unwrap());
}

#[test]
fn dictionary_deduplicates_and_declares_its_type() {
    let key_builder = PrimitiveBuilder::<Int8Type>::new(0);
    let mut builder = StringDictionaryBuilder::new(key_builder, StringBuilder::new(0));
    assert_eq!(0, builder.append("abc").unwrap());
    builder.append_null().unwrap();
    assert_eq!(1, builder.append("def").unwrap());
    assert_eq!(1, builder.append("def").unwrap());
    assert_eq!(0, builder.append("abc").unwrap());
    assert_eq!(5, builder.len());
    assert!(!builder.is_empty());
    let array = builder.finish();
    assert_eq!(
        &DataType::Dictionary(Box::new(DataType::Int8), Box::new(DataType::Utf8)),
        array.data().data_type()
    );
    assert_eq!(5, array.len());
    assert_eq!(1, array.null_count());
    let values = StringArray::from_array_ref(&array.values()).unwrap();
    assert_eq!(2, values.len());
    assert_eq!("abc", values.value(0));
    assert_eq!("def", values.value(1));
    // nothing is known any more
    assert!(builder.is_empty());
    assert_eq!(0, builder.append("def").unwrap());
}

#[test]
fn dictionary_seed_keeps_the_later_place_of_a_repeated_text() {
    let dictionary = StringArray::from_options(vec![Some("a"), None, Some("a"), Some("b")]);
    let key_builder = PrimitiveBuilder::<UInt8Type>::new(0);
    let mut builder =
        StringDictionaryBuilder::new_with_dictionary(key_builder, &dictionary).unwrap();
    assert_eq!(2, builder.append("a").unwrap());
    assert_eq!(3, builder.append("b").unwrap());
    assert_eq!(4, builder.append("").unwrap());
    let array = builder.finish();
    let values = StringArray::from_array_ref(&array.values()).unwrap();
    assert_eq!(5, values.len());
    assert!(values.is_null(1));
    assert_eq!("", values.value(4));
}

#[test]
fn dictionary_seed_overflows_the_key_type() {
    let texts: Vec<String> = (0..129).map(|i| format!("t{}", i)).collect();
    let options: Vec<Option<&str>> = texts.iter().map(|t| Some(t.as_str())).collect();
    let dictionary = StringArray::from_options(options);
    let r = StringDictionaryBuilder::<Int8Type>::new_with_dictionary(
        PrimitiveBuilder::<Int8Type>::new(0),
        &dictionary,
    );
    assert!(matches!(r, Err(ArrowError::DictionaryKeyOverflowError)));
    let r = StringDictionaryBuilder::<Int16Type>::new_with_dictionary(
        PrimitiveBuilder::<Int16Type>::new(0),
        &dictionary,
    );
    assert!(r.is_ok());
}

#[test]
#[should_panic(expected = "DictionaryKeyOverflowError")]
fn test_primitive_dictionary_overflow() {
    let key_builder = PrimitiveBuilder::<UInt8Type>::new(257);
    let value_builder = PrimitiveBuilder::<UInt32Type>::new(257);
    let mut builder = PrimitiveDictionaryBuilder::new(key_builder, value_builder);
    // 256 unique keys.
    for i in 0..256 {
        builder.append(i + 1000).unwrap();
    }
    // Special error if the key overflows (256th entry)
    builder.append(1257).unwrap();
}
