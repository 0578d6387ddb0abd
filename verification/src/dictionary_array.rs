//! Immutable dictionary-encoded arrays: each slot holds a key into an array
//! of values.

use crate::array::{
    flat_array, lemma_counted, lemma_flat_validity, make_array, ArrayRef, PrimitiveArray,
};
use crate::array_data::{
    buffers_view, children_view, clone_array_data, lemma_children_view_empty,
    lemma_children_view_push, ArrayData, ArrayDataView,
};
use crate::bit_util::{count_true, pack_bits};
use crate::buffer::Buffer;
use crate::datatypes::{clone_data_type, DataType, DataTypeView};
use crate::native::{from_bytes, slot_bytes, ArrowNativeType};
use crate::types::ArrowPrimitiveType;
use std::marker::PhantomData;
use vstd::prelude::*;

verus! {

/// The array data of a dictionary-encoded array: a flat array of keys,
/// declared as a dictionary from the key type to the type of the values, with
/// the values as its one child.
pub open spec fn dictionary_array(
    key_type: DataTypeView,
    values: ArrayDataView,
    keys: Seq<u8>,
    validity: Seq<bool>,
    bitmap_len: nat,
) -> ArrayDataView {
    let flat = flat_array(key_type, keys, validity, bitmap_len);
    ArrayDataView {
        data_type: DataTypeView::Dictionary(Box::new(key_type), Box::new(values.data_type)),
        child_data: seq![values],
        ..flat
    }
}

/// The array data of the keys of a dictionary-encoded array, as an array of
/// their own: the buffers, the bitmap and the counts of `d`, declared as the
/// key type, with no child.
pub open spec fn keys_of(key_type: DataTypeView, d: ArrayDataView) -> ArrayDataView {
    ArrayDataView { data_type: key_type, child_data: Seq::empty(), ..d }
}

/// The array data of a dictionary-encoded array whose frozen bitmap, if
/// there is one, holds `validity`: the bitmap is kept only if some slot is
/// null.
pub(crate) fn dictionary_data_of(
    key_type: DataType,
    len: usize,
    keys: Buffer,
    null_bit_buffer: Option<Buffer>,
    values: ArrayData,
    Ghost(validity): Ghost<Seq<bool>>,
    Ghost(bitmap_len): Ghost<nat>,
) -> (r: ArrayData)
    requires
        validity.len() == len,
        len <= 8 * bitmap_len,
        8 * bitmap_len <= usize::MAX,
        match null_bit_buffer {
            Some(b) => b@ == pack_bits(validity, bitmap_len),
            None => count_true(validity) == len,
        },
    ensures
        r@ == dictionary_array(key_type@, values@, keys@, validity, bitmap_len),
        r@.validity() == validity,
{
    proof {
        lemma_counted(validity, bitmap_len);
        lemma_flat_validity(key_type@, keys@, validity, bitmap_len);
    }
    let set: usize = match &null_bit_buffer {
        Some(b) => b.count_set_bits(),
        None => len,
    };
    let null_count: usize = len - set;
    let bitmap: Option<Buffer> = if null_count > 0 {
        null_bit_buffer
    } else {
        None
    };
    let data_type = DataType::Dictionary(
        Box::new(key_type),
        Box::new(clone_data_type(values.data_type())),
    );
    let mut buffers: Vec<Buffer> = Vec::new();
    buffers.push(keys);
    let mut children: Vec<ArrayData> = Vec::new();
    proof {
        lemma_children_view_empty();
        lemma_children_view_push(children@, values);
        assert(buffers_view(buffers@) =~= seq![keys@]);
    }
    children.push(values);
    proof {
        assert(children_view(children@) =~= seq![values@]);
    }
    let r = ArrayData::new(data_type, len, None, bitmap, 0, buffers, children);
    proof {
        assert(r@.validity() =~= flat_array(key_type@, keys@, validity, bitmap_len).validity());
    }
    r
}

/// A dictionary-encoded array with keys of the primitive type `K`.
#[derive(Debug, PartialEq, Eq)]
pub struct DictionaryArray<K: ArrowPrimitiveType> {
    data: ArrayData,
    _marker: PhantomData<K>,
}

impl<K: ArrowPrimitiveType> View for DictionaryArray<K> {
    type V = ArrayDataView;

    closed spec fn view(&self) -> ArrayDataView {
        self.data@
    }
}

impl<K: ArrowPrimitiveType> DictionaryArray<K> {
    /// Whether `d` is laid out as a dictionary-encoded array: one buffer
    /// that holds the key of every slot, the values as the one child, and a
    /// bitmap, if any, with a bit for every slot.
    pub open spec fn layout(d: ArrayDataView) -> bool {
        &&& d.buffers.len() == 1
        &&& d.child_data.len() == 1
        &&& (d.offset + d.len) * K::Native::byte_width() <= d.buffers[0].len()
        &&& d.offset + d.len <= usize::MAX
        &&& d.bitmap_covers()
    }

    /// The array data is laid out as an array of this type.
    pub open spec fn wf(&self) -> bool {
        Self::layout(self@)
    }

    /// The key in slot `i`.
    pub open spec fn spec_key(&self, i: int) -> K::Native {
        from_bytes::<K::Native>(
            slot_bytes(self@.buffers[0], K::Native::byte_width(), self@.offset + i),
        )
    }

    /// The array over `data`.
    pub fn from_data(data: ArrayData) -> (r: Self)
        requires
            Self::layout(data@),
        ensures
            r@ == data@,
            r.wf(),
    {
        DictionaryArray { data, _marker: PhantomData }
    }

    /// The array data.
    pub fn data(&self) -> (r: &ArrayData)
        ensures
            r@ == self@,
    {
        &self.data
    }

    /// The array data, the array given up.
    pub fn into_data(self) -> (r: ArrayData)
        ensures
            r@ == self@,
    {
        self.data
    }

    /// The array as a handle to an array of any type.
    pub fn into_ref(self) -> (r: ArrayRef)
        ensures
            r@ == self@,
    {
        make_array(self.data)
    }

    /// The number of slots.
    pub fn len(&self) -> (r: usize)
        ensures
            r == self@.len,
    {
        self.data.len()
    }

    /// The number of null slots.
    pub fn null_count(&self) -> (r: usize)
        ensures
            r == self@.null_count,
    {
        self.data.null_count()
    }

    /// Whether slot `i` is null.
    pub fn is_null(&self, i: usize) -> (r: bool)
        requires
            self.wf(),
            i < self@.len,
        ensures
            r == !self@.is_valid(i as int),
    {
        self.data.is_null(i)
    }

    /// Whether slot `i` holds a key.
    pub fn is_valid(&self, i: usize) -> (r: bool)
        requires
            self.wf(),
            i < self@.len,
        ensures
            r == self@.is_valid(i as int),
    {
        self.data.is_valid(i)
    }

    /// The keys as an array of their own.
    pub fn keys(&self) -> (r: PrimitiveArray<K>)
        requires
            self.wf(),
        ensures
            r.wf(),
            r@ == keys_of(K::spec_data_type(), self@),
    {
        let mut buffers: Vec<Buffer> = Vec::new();
        buffers.push(self.data.buffers()[0].clone());
        let bitmap: Option<Buffer> = match self.data.null_buffer() {
            Some(b) => Some(b.clone()),
            None => None,
        };
        proof {
            lemma_children_view_empty();
            assert(buffers_view(buffers@) =~= self@.buffers);
        }
        let data = ArrayData::new(
            K::data_type(),
            self.data.len(),
            Some(self.data.null_count()),
            bitmap,
            self.data.offset(),
            buffers,
            Vec::new(),
        );
        PrimitiveArray::from_data(data)
    }

    /// The keys as an array of their own.
    pub fn keys_array(&self) -> (r: PrimitiveArray<K>)
        requires
            self.wf(),
        ensures
            r.wf(),
            r@ == keys_of(K::spec_data_type(), self@),
    {
        self.keys()
    }

    /// The values that the keys point into.
    pub fn values(&self) -> (r: ArrayRef)
        requires
            self.wf(),
        ensures
            r@ == self@.child_data[0],
    {
        make_array(clone_array_data(&self.data.child_data()[0]))
    }
}

} // verus!
