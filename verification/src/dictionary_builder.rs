//! Deduplicating builders of dictionary-encoded arrays: a value is held once
//! in the dictionary and referred to by its key ever after.

use crate::array::ArrayRef;
use crate::array_builder::ArrayBuilder;
use crate::array_data::ArrayDataView;
use crate::binary_array::{var_layout, var_start, var_value, GenericStringArray};
use crate::bit_util::spec_ceil8;
use crate::buffer_builder::MAX_SLOTS;
use crate::byte_map::{bytes_to_vec, ByteMap};
use crate::dictionary_array::{dictionary_array, DictionaryArray};
use crate::error::ArrowError;
use crate::native::{encode_all, to_bytes, write_value, zero_value, ArrowNativeType};
use crate::primitive_builder::PrimitiveBuilder;
use crate::string_builder::GenericStringBuilder;
use crate::types::{ArrowDictionaryKeyType, ArrowPrimitiveType};
use vstd::prelude::*;
use vstd::utf8::encode_utf8;

verus! {

/// Whether the key type has a key for the dictionary entry at place `n`.
pub open spec fn has_key<N: ArrowNativeType>(n: nat) -> bool {
    exists|k: N| #[trigger] k.as_int() == n
}

/// A one-byte unsigned key type has a key for each of the first 256 entries
/// of a dictionary and for no other: the 257th entry is the first to be
/// refused. The other integer key types likewise, each up to its largest
/// value.
pub proof fn lemma_key_range(n: nat)
    ensures
        has_key::<u8>(n) <==> n <= u8::MAX,
        has_key::<u16>(n) <==> n <= u16::MAX,
        has_key::<u32>(n) <==> n <= u32::MAX,
        has_key::<u64>(n) <==> n <= u64::MAX,
        has_key::<i8>(n) <==> n <= i8::MAX,
        has_key::<i16>(n) <==> n <= i16::MAX,
        has_key::<i32>(n) <==> n <= i32::MAX,
        has_key::<i64>(n) <==> n <= i64::MAX,
{
    if n <= u8::MAX {
        assert((n as u8).as_int() == n);
    }
    if n <= u16::MAX {
        assert((n as u16).as_int() == n);
    }
    if n <= u32::MAX {
        assert((n as u32).as_int() == n);
    }
    if n <= u64::MAX {
        assert((n as u64).as_int() == n);
    }
    if n <= i8::MAX {
        assert((n as i8).as_int() == n);
    }
    if n <= i16::MAX {
        assert((n as i16).as_int() == n);
    }
    if n <= i32::MAX {
        assert((n as i32).as_int() == n);
    }
    if n <= i64::MAX {
        assert((n as i64).as_int() == n);
    }
}

/// Array builder for dictionary-encoded arrays of primitive values, with
/// keys of the primitive type `K` and values of the primitive type `V`.
pub struct PrimitiveDictionaryBuilder<K: ArrowPrimitiveType, V: ArrowPrimitiveType> {
    keys_builder: PrimitiveBuilder<K>,
    values_builder: PrimitiveBuilder<V>,
    map: ByteMap<K::Native>,
}

impl<K: ArrowPrimitiveType, V: ArrowPrimitiveType> ArrayBuilder for PrimitiveDictionaryBuilder<
    K,
    V,
> {
    closed spec fn wf(&self) -> bool {
        &&& self.keys_builder.wf()
        &&& self.values_builder.wf()
        &&& self.map.wf()
    }

    closed spec fn spec_len(&self) -> nat {
        self.keys_builder.spec_len()
    }

    open spec fn can_finish(&self) -> bool {
        true
    }

    open spec fn built(&self) -> ArrayDataView {
        dictionary_array(
            K::spec_data_type(),
            self.dictionary().built(),
            encode_all(self.keys().values()),
            self.keys().validity(),
            spec_ceil8(self.keys().spec_len()),
        )
    }

    /// The keys and the dictionary are reset, and no value is known.
    open spec fn reset_of(&self, before: &Self) -> bool {
        &&& self.wf()
        &&& self.keys().reset_of(&before.keys())
        &&& self.dictionary().reset_of(&before.dictionary())
        &&& self.map() == Map::<Seq<u8>, K::Native>::empty()
    }

    proof fn lemma_built_len(&self) {
        self.keys_builder.lemma_wf();
    }

    fn len(&self) -> (r: usize) {
        self.keys_builder.len()
    }

    fn is_empty(&self) -> (r: bool) {
        self.keys_builder.is_empty()
    }

    fn finish(&mut self) -> (r: ArrayRef) {
        PrimitiveDictionaryBuilder::finish(self).into_ref()
    }
}

impl<K: ArrowPrimitiveType, V: ArrowPrimitiveType> PrimitiveDictionaryBuilder<K, V> {
    /// The builder of the keys.
    pub closed spec fn keys(&self) -> PrimitiveBuilder<K> {
        self.keys_builder
    }

    /// The builder of the dictionary: the values, each held once.
    pub closed spec fn dictionary(&self) -> PrimitiveBuilder<V> {
        self.values_builder
    }

    /// The key of each value known, by the bytes of the value.
    pub closed spec fn map(&self) -> Map<Seq<u8>, K::Native> {
        self.map@
    }

    /// How the state is made up of its parts.
    pub proof fn lemma_wf(&self)
        ensures
            self.wf() ==> self.keys().wf() && self.dictionary().wf(),
            self.spec_len() == self.keys().spec_len(),
    {
    }

    /// Creates a new builder from a keys builder and a value builder. No
    /// value is known at first.
    pub fn new(keys_builder: PrimitiveBuilder<K>, values_builder: PrimitiveBuilder<V>) -> (r: Self)
        requires
            keys_builder.wf(),
            values_builder.wf(),
        ensures
            r.wf(),
            r.keys() == keys_builder,
            r.dictionary() == values_builder,
            r.map() == Map::<Seq<u8>, K::Native>::empty(),
    {
        Self { keys_builder, values_builder, map: ByteMap::new() }
    }

    /// Appends a value: the key of the value, where the value is known
    /// already, else a new key, which is the place that the value takes in
    /// the dictionary. Returns the key. Where the key type has no key for
    /// that place, nothing is appended.
    pub fn append(&mut self, value: V::Native) -> (r: Result<K::Native, ArrowError>)
        requires
            old(self).wf(),
            old(self).keys().spec_len() < MAX_SLOTS,
            old(self).dictionary().spec_len() < MAX_SLOTS,
        ensures
            final(self).wf(),
            r is Err <==> !old(self).map().contains_key(to_bytes(value)) && !has_key::<K::Native>(
                old(self).dictionary().spec_len(),
            ),
            r is Err ==> r->Err_0 is DictionaryKeyOverflowError && *final(self) == *old(self),
            r is Ok ==> {
                &&& final(self).keys().values() == old(self).keys().values().push(r->Ok_0)
                &&& final(self).keys().validity() == old(self).keys().validity().push(true)
                &&& final(self).keys().has_bitmap() == old(self).keys().has_bitmap()
                &&& final(self).keys().spec_len() == old(self).keys().spec_len() + 1
                &&& final(self).map().contains_key(to_bytes(value))
                &&& final(self).map()[to_bytes(value)] == r->Ok_0
            },
            r is Ok && old(self).map().contains_key(to_bytes(value)) ==> {
                &&& r->Ok_0 == old(self).map()[to_bytes(value)]
                &&& final(self).dictionary() == old(self).dictionary()
                &&& final(self).map() == old(self).map()
            },
            r is Ok && !old(self).map().contains_key(to_bytes(value)) ==> {
                &&& r->Ok_0.as_int() == old(self).dictionary().spec_len()
                &&& final(self).dictionary().values() == old(self).dictionary().values().push(value)
                &&& final(self).dictionary().validity() == old(
                    self,
                ).dictionary().validity().push(true)
                &&& final(self).dictionary().has_bitmap() == old(self).dictionary().has_bitmap()
                &&& final(self).dictionary().spec_len() == old(self).dictionary().spec_len() + 1
                &&& final(self).map() == old(self).map().insert(to_bytes(value), r->Ok_0)
            },
    {
        let mut bytes: Vec<u8> = Vec::new();
        write_value(value, &mut bytes);
        proof {
            assert(bytes@ =~= to_bytes(value));
        }
        match self.map.get(bytes.as_slice()) {
            Some(key) => {
                // Append existing value.
                let _ = self.keys_builder.append_value(key);
                Ok(key)
            },
            None => {
                // Append new value.
                let key = match K::Native::from_usize(self.values_builder.len()) {
                    Some(key) => key,
                    None => {
                        return Err(ArrowError::DictionaryKeyOverflowError);
                    },
                };
                let _ = self.values_builder.append_value(value);
                let _ = self.keys_builder.append_value(key);
                self.map.insert(bytes, key);
                Ok(key)
            },
        }
    }

    /// Appends a null key. The dictionary is not touched.
    pub fn append_null(&mut self) -> (r: Result<(), ArrowError>)
        requires
            old(self).wf(),
            old(self).keys().spec_len() < MAX_SLOTS,
        ensures
            r is Ok,
            final(self).wf(),
            final(self).keys().values() == old(self).keys().values().push(
                zero_value::<K::Native>(),
            ),
            final(self).keys().validity() == old(self).keys().validity().push(false),
            final(self).keys().has_bitmap(),
            final(self).keys().spec_len() == old(self).keys().spec_len() + 1,
            final(self).dictionary() == old(self).dictionary(),
            final(self).map() == old(self).map(),
    {
        self.keys_builder.append_null()
    }

    /// Builds the array and leaves the builder empty: the dictionary is
    /// finished into the values of the array, the keys into its slots, and
    /// no value is known any more.
    pub fn finish(&mut self) -> (r: DictionaryArray<K>)
        requires
            old(self).wf(),
        ensures
            r@ == old(self).built(),
            r.wf(),
            forall|i: int|
                0 <= i < old(self).spec_len() ==> r.spec_key(i) == old(self).keys().values()[i],
            r@.validity() == old(self).keys().validity(),
            final(self).reset_of(old(self)),
    {
        self.map.clear();
        let value_ref: ArrayRef = self.values_builder.finish().into_ref();
        self.keys_builder.finish_dict(value_ref)
    }
}

/// The key for the dictionary entry at place `n`.
pub open spec fn key_at<N: ArrowNativeType>(n: nat) -> N {
    choose|k: N| #[trigger] k.as_int() == n
}

/// The bytes of the first `n` slots of a dictionary of text that hold a
/// value, one text after the other.
pub open spec fn seeded_data(d: ArrayDataView, n: nat) -> Seq<u8>
    decreases n,
{
    if n == 0 {
        Seq::empty()
    } else if d.is_valid(n - 1) {
        seeded_data(d, (n - 1) as nat) + var_value::<i32>(d, n - 1)
    } else {
        seeded_data(d, (n - 1) as nat)
    }
}

/// The offsets of the first `n` slots of a dictionary of text, as a builder
/// seeded with them has them: a null slot is empty.
pub open spec fn seeded_offsets(d: ArrayDataView, n: nat) -> Seq<int> {
    Seq::new(n + 1, |i: int| seeded_data(d, i as nat).len() as int)
}

/// The keys of the first `n` slots of a dictionary of text: the text of a
/// slot that holds a value has the slot's place as its key, and where two
/// slots hold one text, the later place.
pub open spec fn seeded_map<N: ArrowNativeType>(d: ArrayDataView, n: nat) -> Map<Seq<u8>, N>
    decreases n,
{
    if n == 0 {
        Map::empty()
    } else if d.is_valid(n - 1) {
        seeded_map::<N>(d, (n - 1) as nat).insert(
            var_value::<i32>(d, n - 1),
            key_at::<N>((n - 1) as nat),
        )
    } else {
        seeded_map::<N>(d, (n - 1) as nat)
    }
}

/// Whether the key type has a key for every one of the first `n` slots of a
/// dictionary that holds a value.
pub open spec fn has_keys<N: ArrowNativeType>(d: ArrayDataView, n: nat) -> bool {
    forall|i: int| 0 <= i < n && d.is_valid(i) ==> has_key::<N>(i as nat)
}

/// The seeded data is no longer than the values up to the slot reached.
proof fn lemma_seeded_len(d: ArrayDataView, n: nat)
    requires
        var_layout::<i32>(d),
        n <= d.len,
    ensures
        seeded_data(d, n).len() <= var_start::<i32>(d, n as int),
        seeded_data(d, n).len() <= d.buffers[1].len(),
    decreases n,
{
    let a = var_start::<i32>(d, 0);
    let b = var_start::<i32>(d, n as int);
    assert(0 <= a <= b <= d.buffers[1].len());
    if n > 0 {
        lemma_seeded_len(d, (n - 1) as nat);
        let c = var_start::<i32>(d, n - 1);
        assert(0 <= c <= b);
    }
}

/// Array builder for dictionary-encoded arrays of text, with keys of the
/// integer type `K`.
pub struct StringDictionaryBuilder<K: ArrowDictionaryKeyType> {
    keys_builder: PrimitiveBuilder<K>,
    values_builder: GenericStringBuilder<i32>,
    map: ByteMap<K::Native>,
}

impl<K: ArrowDictionaryKeyType> ArrayBuilder for StringDictionaryBuilder<K> {
    closed spec fn wf(&self) -> bool {
        &&& self.keys_builder.wf()
        &&& self.values_builder.wf()
        &&& self.map.wf()
    }

    closed spec fn spec_len(&self) -> nat {
        self.keys_builder.spec_len()
    }

    open spec fn can_finish(&self) -> bool {
        true
    }

    open spec fn built(&self) -> ArrayDataView {
        dictionary_array(
            K::spec_data_type(),
            self.dictionary().built(),
            encode_all(self.keys().values()),
            self.keys().validity(),
            spec_ceil8(self.keys().spec_len()),
        )
    }

    /// The keys and the dictionary are reset, and no text is known.
    open spec fn reset_of(&self, before: &Self) -> bool {
        &&& self.wf()
        &&& self.keys().reset_of(&before.keys())
        &&& self.dictionary().reset_of(&before.dictionary())
        &&& self.map() == Map::<Seq<u8>, K::Native>::empty()
    }

    proof fn lemma_built_len(&self) {
        self.keys_builder.lemma_wf();
    }

    fn len(&self) -> (r: usize) {
        self.keys_builder.len()
    }

    fn is_empty(&self) -> (r: bool) {
        self.keys_builder.is_empty()
    }

    fn finish(&mut self) -> (r: ArrayRef) {
        StringDictionaryBuilder::finish(self).into_ref()
    }
}

impl<K: ArrowDictionaryKeyType> StringDictionaryBuilder<K> {
    /// The builder of the keys.
    pub closed spec fn keys(&self) -> PrimitiveBuilder<K> {
        self.keys_builder
    }

    /// The builder of the dictionary: the texts, each held once.
    pub closed spec fn dictionary(&self) -> GenericStringBuilder<i32> {
        self.values_builder
    }

    /// The key of each text known, by the UTF-8 bytes of the text.
    pub closed spec fn map(&self) -> Map<Seq<u8>, K::Native> {
        self.map@
    }

    /// How the state is made up of its parts.
    pub proof fn lemma_wf(&self)
        ensures
            self.wf() ==> self.keys().wf() && self.dictionary().wf(),
            self.spec_len() == self.keys().spec_len(),
    {
    }

    /// Creates a new builder from a keys builder and a value builder. No
    /// text is known at first.
    pub fn new(keys_builder: PrimitiveBuilder<K>, values_builder: GenericStringBuilder<i32>) -> (r:
        Self)
        requires
            keys_builder.wf(),
            values_builder.wf(),
        ensures
            r.wf(),
            r.keys() == keys_builder,
            r.dictionary() == values_builder,
            r.map() == Map::<Seq<u8>, K::Native>::empty(),
    {
        Self { keys_builder, values_builder, map: ByteMap::new() }
    }

    /// Creates a new builder from a keys builder and a dictionary: the
    /// dictionary holds the slots of `dictionary_values`, and the text of
    /// each slot that holds a value is known under the slot's place. A null
    /// slot takes its place in the dictionary but is known under no text.
    /// Refused where the key type has no key for the place of a slot that
    /// holds a value.
    pub fn new_with_dictionary(
        keys_builder: PrimitiveBuilder<K>,
        dictionary_values: &GenericStringArray<i32>,
    ) -> (r: Result<Self, ArrowError>)
        requires
            keys_builder.wf(),
            dictionary_values.wf(),
            dictionary_values@.offset == 0,
            dictionary_values@.len + 1 < MAX_SLOTS,
            dictionary_values@.buffers[1].len() <= MAX_SLOTS,
        ensures
            r is Err <==> !has_keys::<K::Native>(dictionary_values@, dictionary_values@.len),
            r is Err ==> r->Err_0 is DictionaryKeyOverflowError,
            r is Ok ==> {
                &&& r->Ok_0.wf()
                &&& r->Ok_0.keys() == keys_builder
                &&& r->Ok_0.dictionary().spec_len() == dictionary_values@.len
                &&& r->Ok_0.dictionary().data() == seeded_data(
                    dictionary_values@,
                    dictionary_values@.len,
                )
                &&& r->Ok_0.dictionary().offsets() == seeded_offsets(
                    dictionary_values@,
                    dictionary_values@.len,
                )
                &&& r->Ok_0.dictionary().validity() == dictionary_values@.validity()
                &&& r->Ok_0.map() == seeded_map::<K::Native>(
                    dictionary_values@,
                    dictionary_values@.len,
                )
            },
    {
        let dict_len: usize = dictionary_values.len();
        let ghost d = dictionary_values@;
        let mut values_builder = GenericStringBuilder::<i32>::with_capacity(
            dict_len,
            dictionary_values.value_data().len(),
        );
        let mut map: ByteMap<K::Native> = ByteMap::new();
        let mut i: usize = 0;
        proof {
            assert(values_builder.offsets() =~= seeded_offsets(d, 0));
            assert(values_builder.validity() =~= d.validity().take(0));
        }
        while i < dict_len
            invariant
                i <= dict_len,
                dict_len == d.len,
                d == dictionary_values@,
                dictionary_values.wf(),
                d.offset == 0,
                d.len + 1 < MAX_SLOTS,
                d.buffers[1].len() <= MAX_SLOTS,
                values_builder.wf(),
                map.wf(),
                has_keys::<K::Native>(d, i as nat),
                values_builder.spec_len() == i,
                values_builder.data() == seeded_data(d, i as nat),
                values_builder.offsets() == seeded_offsets(d, i as nat),
                values_builder.validity() == d.validity().take(i as int),
                map@ == seeded_map::<K::Native>(d, i as nat),
            decreases dict_len - i,
        {
            proof {
                lemma_seeded_len(d, i as nat);
                lemma_seeded_len(d, (i + 1) as nat);
                K::Native::lemma_bits(zero_value::<K::Native>());
            }
            if dictionary_values.is_valid(i) {
                let value = dictionary_values.value(i);
                proof {
                    vstd::utf8::decode_utf8_encode_utf8(var_value::<i32>(d, i as int));
                    assert(encode_utf8(value@) == var_value::<i32>(d, i as int));
                    let x = var_start::<i32>(d, i + 1);
                    assert(0 <= x <= d.buffers[1].len());
                    assert(x <= i32::MAX);
                }
                let key = match K::Native::from_usize(i) {
                    Some(key) => key,
                    None => {
                        proof {
                            assert(!has_key::<K::Native>(i as nat));
                        }
                        return Err(ArrowError::DictionaryKeyOverflowError);
                    },
                };
                proof {
                    K::Native::lemma_as_int(key, key_at::<K::Native>(i as nat));
                }
                map.insert(bytes_to_vec(value.as_str().as_bytes()), key);
                let _ = values_builder.append_value(value.as_str());
            } else {
                let _ = values_builder.append_null();
            }
            proof {
                assert(values_builder.offsets() =~= seeded_offsets(d, (i + 1) as nat));
                assert(values_builder.validity() =~= d.validity().take(i + 1));
                assert forall|k: int| 0 <= k < i + 1 && d.is_valid(k) implies has_key::<K::Native>(
                    k as nat,
                ) by {
                    if k == i {
                    }
                }
            }
            i = i + 1;
        }
        proof {
            assert(d.validity().take(dict_len as int) =~= d.validity());
        }
        Ok(Self { keys_builder, values_builder, map })
    }

    /// Appends a text: the key of the text, where the text is known
    /// already, else a new key, which is the place that the text takes in
    /// the dictionary. Returns the key. Where the key type has no key for
    /// that place, nothing is appended.
    pub fn append(&mut self, value: &str) -> (r: Result<K::Native, ArrowError>)
        requires
            old(self).wf(),
            old(self).keys().spec_len() < MAX_SLOTS,
            old(self).dictionary().spec_len() + 1 < MAX_SLOTS,
            old(self).dictionary().data().len() + encode_utf8(value@).len() <= MAX_SLOTS,
            old(self).dictionary().data().len() + encode_utf8(value@).len() <= i32::MAX,
        ensures
            final(self).wf(),
            r is Err <==> !old(self).map().contains_key(encode_utf8(value@)) && !has_key::<
                K::Native,
            >(old(self).dictionary().spec_len()),
            r is Err ==> r->Err_0 is DictionaryKeyOverflowError && *final(self) == *old(self),
            r is Ok ==> {
                &&& final(self).keys().values() == old(self).keys().values().push(r->Ok_0)
                &&& final(self).keys().validity() == old(self).keys().validity().push(true)
                &&& final(self).keys().has_bitmap() == old(self).keys().has_bitmap()
                &&& final(self).keys().spec_len() == old(self).keys().spec_len() + 1
                &&& final(self).map().contains_key(encode_utf8(value@))
                &&& final(self).map()[encode_utf8(value@)] == r->Ok_0
            },
            r is Ok && old(self).map().contains_key(encode_utf8(value@)) ==> {
                &&& r->Ok_0 == old(self).map()[encode_utf8(value@)]
                &&& final(self).dictionary() == old(self).dictionary()
                &&& final(self).map() == old(self).map()
            },
            r is Ok && !old(self).map().contains_key(encode_utf8(value@)) ==> {
                &&& r->Ok_0.as_int() == old(self).dictionary().spec_len()
                &&& final(self).dictionary().spec_len() == old(self).dictionary().spec_len() + 1
                &&& final(self).dictionary().data() == old(self).dictionary().data() + encode_utf8(
                    value@,
                )
                &&& final(self).dictionary().offsets() == old(self).dictionary().offsets().push(
                    final(self).dictionary().data().len() as int,
                )
                &&& final(self).dictionary().validity() == old(
                    self,
                ).dictionary().validity().push(true)
                &&& final(self).map() == old(self).map().insert(encode_utf8(value@), r->Ok_0)
            },
    {
        match self.map.get(value.as_bytes()) {
            Some(key) => {
                // Append existing value.
                let _ = self.keys_builder.append_value(key);
                Ok(key)
            },
            None => {
                // Append new value.
                let key = match K::Native::from_usize(self.values_builder.len()) {
                    Some(key) => key,
                    None => {
                        return Err(ArrowError::DictionaryKeyOverflowError);
                    },
                };
                let _ = self.values_builder.append_value(value);
                let _ = self.keys_builder.append_value(key);
                self.map.insert(bytes_to_vec(value.as_bytes()), key);
                Ok(key)
            },
        }
    }

    /// Appends a null key. The dictionary is not touched.
    pub fn append_null(&mut self) -> (r: Result<(), ArrowError>)
        requires
            old(self).wf(),
            old(self).keys().spec_len() < MAX_SLOTS,
        ensures
            r is Ok,
            final(self).wf(),
            final(self).keys().values() == old(self).keys().values().push(
                zero_value::<K::Native>(),
            ),
            final(self).keys().validity() == old(self).keys().validity().push(false),
            final(self).keys().has_bitmap(),
            final(self).keys().spec_len() == old(self).keys().spec_len() + 1,
            final(self).dictionary() == old(self).dictionary(),
            final(self).map() == old(self).map(),
    {
        self.keys_builder.append_null()
    }

    /// Builds the array and leaves the builder empty: the dictionary is
    /// finished into the values of the array, the keys into its slots, and
    /// no text is known any more.
    pub fn finish(&mut self) -> (r: DictionaryArray<K>)
        requires
            old(self).wf(),
        ensures
            r@ == old(self).built(),
            r.wf(),
            forall|i: int|
                0 <= i < old(self).spec_len() ==> r.spec_key(i) == old(self).keys().values()[i],
            r@.validity() == old(self).keys().validity(),
            final(self).reset_of(old(self)),
    {
        self.map.clear();
        let value_ref: ArrayRef = self.values_builder.finish().into_ref();
        self.keys_builder.finish_dict(value_ref)
    }
}

} // verus!
