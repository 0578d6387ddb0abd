//! Immutable arrays: a type-erased handle, and typed readers over the frozen
//! buffers.

use crate::array_data::{
    buffers_view, children_view, clone_array_data, lemma_children_view_empty, spec_count_nulls,
    ArrayData, ArrayDataView,
};
use crate::bit_util::{
    bit_at, bits_of, ceil, count_true, holds_bits, lemma_count_held, lemma_count_true_bounds,
    lemma_pack_bits, pack_bits, spec_ceil8, MAX_BITS,
};
use crate::buffer::Buffer;
use crate::buffer_builder::{MAX_SLOTS, BooleanBufferBuilder, BufferBuilder};
use crate::datatypes::{data_type_eq, DataType, DataTypeView};
use crate::native::{
    encode_all, from_bytes, lemma_encode_len, lemma_encode_slot, slot_bytes, zero_value,
    ArrowNativeType,
};
use crate::types::ArrowPrimitiveType;
use std::marker::PhantomData;
use vstd::prelude::*;

verus! {

/// The array data of a flat array: one buffer, no child, and a validity
/// bitmap only where a slot is null.
pub open spec fn flat_array(
    data_type: DataTypeView,
    buffer: Seq<u8>,
    validity: Seq<bool>,
    bitmap_len: nat,
) -> ArrayDataView {
    let null_count = (validity.len() - count_true(validity)) as nat;
    ArrayDataView {
        data_type,
        len: validity.len(),
        null_count,
        offset: 0,
        buffers: seq![buffer],
        child_data: Seq::empty(),
        null_bitmap: if null_count > 0 {
            Some(pack_bits(validity, bitmap_len))
        } else {
            None
        },
    }
}

/// The values of `values`, zero where there is none.
pub open spec fn option_values<N: ArrowNativeType>(values: Seq<Option<N>>) -> Seq<N> {
    Seq::new(
        values.len(),
        |i: int|
            match values[i] {
                Some(v) => v,
                None => zero_value::<N>(),
            },
    )
}

/// Which entries of `values` hold a value.
pub open spec fn option_validity<V>(values: Seq<Option<V>>) -> Seq<bool> {
    Seq::new(values.len(), |i: int| values[i] is Some)
}

/// Bytes that hold the validity of every slot count as many nulls as there
/// are slots that are not valid.
pub proof fn lemma_count_nulls_held(bytes: Seq<u8>, validity: Seq<bool>)
    requires
        holds_bits(bytes, validity),
    ensures
        spec_count_nulls(Some(bytes), 0, validity.len()) == validity.len() - count_true(validity),
        count_true(validity) <= validity.len(),
{
    lemma_count_held(bytes, validity);
    lemma_count_true_bounds(validity);
    assert(bits_of(bytes, validity.len()).skip(0) =~= bits_of(bytes, validity.len()));
}

/// The array data of `len` slots over one buffer, with the given bitmap and
/// no child; the nulls are counted from the bitmap.
pub fn flat_data(data_type: DataType, len: usize, buffer: Buffer, bitmap: Option<Buffer>) -> (r:
    ArrayData)
    requires
        match bitmap {
            Some(b) => len <= 8 * b@.len(),
            None => true,
        },
    ensures
        r@ == (ArrayDataView {
            data_type: data_type@,
            len: len as nat,
            null_count: spec_count_nulls(r@.null_bitmap, 0, len as nat),
            offset: 0,
            buffers: seq![buffer@],
            child_data: Seq::empty(),
            null_bitmap: match bitmap {
                Some(b) => Some(b@),
                None => None,
            },
        }),
{
    let mut buffers: Vec<Buffer> = Vec::new();
    buffers.push(buffer);
    proof {
        assert(buffers_view(buffers@) =~= seq![buffer@]);
        lemma_children_view_empty();
    }
    ArrayData::new(data_type, len, None, bitmap, 0, buffers, Vec::new())
}

/// The array data of `len` slots over one child, with the given bitmap and
/// at most one buffer; the nulls are counted from the bitmap.
pub fn nested_data(
    data_type: DataType,
    len: usize,
    buffer: Option<Buffer>,
    child: ArrayData,
    bitmap: Buffer,
) -> (r: ArrayData)
    requires
        len <= 8 * bitmap@.len(),
    ensures
        r@ == (ArrayDataView {
            data_type: data_type@,
            len: len as nat,
            null_count: spec_count_nulls(Some(bitmap@), 0, len as nat),
            offset: 0,
            buffers: match buffer {
                Some(b) => seq![b@],
                None => Seq::empty(),
            },
            child_data: seq![child@],
            null_bitmap: Some(bitmap@),
        }),
{
    let mut buffers: Vec<Buffer> = Vec::new();
    match buffer {
        Some(b) => {
            buffers.push(b);
            proof {
                assert(buffers_view(buffers@) =~= seq![b@]);
            }
        },
        None => {
            proof {
                assert(buffers_view(buffers@) =~= Seq::<Seq<u8>>::empty());
            }
        },
    }
    let mut children: Vec<ArrayData> = Vec::new();
    proof {
        lemma_children_view_empty();
        crate::array_data::lemma_children_view_push(children@, child);
    }
    children.push(child);
    proof {
        assert(children_view(children@) =~= seq![child@]);
    }
    ArrayData::new(data_type, len, None, Some(bitmap), 0, buffers, children)
}

/// A bitmap of every slot's validity, counted, tells whether to keep it.
pub proof fn lemma_counted(validity: Seq<bool>, bitmap_len: nat)
    requires
        validity.len() <= 8 * bitmap_len,
    ensures
        count_true(bits_of(pack_bits(validity, bitmap_len), 8 * bitmap_len)) == count_true(
            validity,
        ),
        count_true(validity) <= validity.len(),
        spec_count_nulls(Some(pack_bits(validity, bitmap_len)), 0, validity.len())
            == validity.len() - count_true(validity),
        pack_bits(validity, bitmap_len).len() == bitmap_len,
{
    lemma_pack_bits(validity, bitmap_len);
    lemma_count_held(pack_bits(validity, bitmap_len), validity);
    lemma_count_nulls_held(pack_bits(validity, bitmap_len), validity);
}

/// A flat array with a packed bitmap, or none where no slot is null, has the
/// validity it was built from.
pub proof fn lemma_flat_validity(
    data_type: DataTypeView,
    buffer: Seq<u8>,
    validity: Seq<bool>,
    bitmap_len: nat,
)
    requires
        validity.len() <= 8 * bitmap_len,
    ensures
        flat_array(data_type, buffer, validity, bitmap_len).validity() == validity,
{
    let array = flat_array(data_type, buffer, validity, bitmap_len);
    lemma_count_true_bounds(validity);
    if count_true(validity) == validity.len() {
        crate::bit_util::lemma_count_true_full(validity);
    } else {
        lemma_pack_bits(validity, bitmap_len);
    }
    assert(array.validity() =~= validity);
}

/// The array data of a flat array whose frozen bitmap, if there is one,
/// holds `validity`: the bitmap is kept only if some slot is null.
pub(crate) fn flat_data_of(
    data_type: DataType,
    len: usize,
    buffer: Buffer,
    null_bit_buffer: Option<Buffer>,
    Ghost(validity): Ghost<Seq<bool>>,
    Ghost(bitmap_len): Ghost<nat>,
) -> (r: ArrayData)
    requires
        validity.len() == len,
        len <= 8 * bitmap_len,
        8 * bitmap_len <= usize::MAX,
        match null_bit_buffer {
            Some(b) => b@ == pack_bits(validity, bitmap_len),
            None => count_true(validity) == len,
        },
    ensures
        r@ == flat_array(data_type@, buffer@, validity, bitmap_len),
        r@.validity() == validity,
{
    proof {
        lemma_counted(validity, bitmap_len);
        lemma_flat_validity(data_type@, buffer@, validity, bitmap_len);
    }
    let set: usize = match &null_bit_buffer {
        Some(b) => b.count_set_bits(),
        None => len,
    };
    let null_count: usize = len - set;
    let bitmap: Option<Buffer> = if null_count > 0 {
        null_bit_buffer
    } else {
        None
    };
    flat_data(data_type, len, buffer, bitmap)
}

/// An array that starts at the first slot of a packed bitmap has the
/// validity that the bitmap was packed from.
pub proof fn lemma_validity_held(array: ArrayDataView, validity: Seq<bool>, bitmap_len: nat)
    requires
        array.len == validity.len(),
        array.offset == 0,
        validity.len() <= 8 * bitmap_len,
        array.null_bitmap == Some(pack_bits(validity, bitmap_len)),
    ensures
        array.validity() == validity,
{
    lemma_pack_bits(validity, bitmap_len);
    assert(array.validity() =~= validity);
}

/// A handle to an immutable array of any type.
#[derive(Debug, PartialEq, Eq)]
pub struct ArrayRef {
    data: ArrayData,
}

impl View for ArrayRef {
    type V = ArrayDataView;

    closed spec fn view(&self) -> ArrayDataView {
        self.data@
    }
}

impl Clone for ArrayRef {
    fn clone(&self) -> (r: Self)
        ensures
            r@ == self@,
    {
        ArrayRef { data: clone_array_data(&self.data) }
    }
}

/// The array that `data` describes.
pub fn make_array(data: ArrayData) -> (r: ArrayRef)
    ensures
        r@ == data@,
{
    ArrayRef { data }
}

impl ArrayRef {
    /// The array data.
    pub fn data(&self) -> (r: &ArrayData)
        ensures
            r@ == self@,
    {
        &self.data
    }

    /// The array data, the handle given up.
    pub fn into_data(self) -> (r: ArrayData)
        ensures
            r@ == self@,
    {
        self.data
    }

    /// The declared type.
    pub fn data_type(&self) -> (r: &DataType)
        ensures
            r@ == self@.data_type,
    {
        self.data.data_type()
    }

    /// The number of slots.
    pub fn len(&self) -> (r: usize)
        ensures
            r == self@.len,
    {
        self.data.len()
    }

    /// Whether there is no slot.
    pub fn is_empty(&self) -> (r: bool)
        ensures
            r == (self@.len == 0),
    {
        self.data.is_empty()
    }

    /// The number of null slots.
    pub fn null_count(&self) -> (r: usize)
        ensures
            r == self@.null_count,
    {
        self.data.null_count()
    }
}

/// An array of fixed-width values of one primitive type.
#[derive(Debug, PartialEq, Eq)]
pub struct PrimitiveArray<T: ArrowPrimitiveType> {
    data: ArrayData,
    _marker: PhantomData<T>,
}

impl<T: ArrowPrimitiveType> View for PrimitiveArray<T> {
    type V = ArrayDataView;

    closed spec fn view(&self) -> ArrayDataView {
        self.data@
    }
}

impl<T: ArrowPrimitiveType> PrimitiveArray<T> {
    /// Whether `d` is laid out as an array of this type: one buffer that
    /// holds every slot, and a bitmap, if any, with a bit for every slot.
    pub open spec fn layout(d: ArrayDataView) -> bool {
        &&& d.buffers.len() == 1
        &&& (d.offset + d.len) * T::Native::byte_width() <= d.buffers[0].len()
        &&& d.offset + d.len <= usize::MAX
        &&& d.bitmap_covers()
    }

    /// The array data is laid out as an array of this type.
    pub open spec fn wf(&self) -> bool {
        Self::layout(self@)
    }

    /// The value in slot `i`.
    pub open spec fn spec_value(&self, i: int) -> T::Native {
        from_bytes::<T::Native>(
            slot_bytes(self@.buffers[0], T::Native::byte_width(), self@.offset + i),
        )
    }

    /// The values of all slots.
    pub open spec fn spec_values(&self) -> Seq<T::Native> {
        Seq::new(self@.len, |i: int| self.spec_value(i))
    }

    /// The array over `data`.
    pub fn from_data(data: ArrayData) -> (r: Self)
        requires
            Self::layout(data@),
        ensures
            r@ == data@,
            r.wf(),
    {
        PrimitiveArray { data, _marker: PhantomData }
    }

    /// The array over `data`, if `data` is of this type and laid out as an
    /// array of it.
    pub fn try_new(data: ArrayData) -> (r: Option<Self>)
        ensures
            match r {
                Some(a) => a@ == data@ && a.wf() && data@.data_type == T::spec_data_type(),
                None => !(Self::layout(data@) && data@.data_type == T::spec_data_type()),
            },
    {
        if !data_type_eq(data.data_type(), &T::data_type()) || data.buffers().len() != 1
            || data.offset() > usize::MAX - data.len() {
            return None;
        }
        let slots: usize = data.offset() + data.len();
        let covered = match data.null_buffer() {
            Some(b) => ceil(slots, 8) <= b.len(),
            None => true,
        };
        if !covered {
            return None;
        }
        let w: usize = T::Native::size();
        let bytes: usize = data.buffers()[0].len();
        proof {
            assert(slots <= bytes / w <==> slots * w <= bytes) by (nonlinear_arith)
                requires
                    w > 0,
                    slots >= 0,
                    bytes >= 0,
            ;
        }
        if slots <= bytes / w {
            Some(PrimitiveArray { data, _marker: PhantomData })
        } else {
            None
        }
    }

    /// The array that `array` refers to, if it is of this type.
    pub fn from_array_ref(array: &ArrayRef) -> (r: Option<Self>)
        ensures
            match r {
                Some(a) => a@ == array@ && a.wf() && array@.data_type == T::spec_data_type(),
                None => !(Self::layout(array@) && array@.data_type == T::spec_data_type()),
            },
    {
        Self::try_new(clone_array_data(array.data()))
    }

    /// An array of the given values, `None` for a null slot. The null slots
    /// hold zero, and the bitmap is always there.
    pub fn from_options(values: Vec<Option<T::Native>>) -> (r: Self)
        requires
            values@.len() <= MAX_SLOTS,
        ensures
            r.wf(),
            r@.data_type == T::spec_data_type(),
            r@.len == values@.len(),
            r@.offset == 0,
            r@.buffers == seq![encode_all(option_values(values@))],
            r@.null_bitmap == Some(
                pack_bits(option_validity(values@), spec_ceil8(values@.len())),
            ),
            r@.null_count == values@.len() - count_true(option_validity(values@)),
            r@.child_data == Seq::<ArrayDataView>::empty(),
    {
        let n: usize = values.len();
        let mut vals = BufferBuilder::<T::Native>::new(n);
        let mut bits = BooleanBufferBuilder::new(n);
        let mut i: usize = 0;
        while i < n
            invariant
                i <= n,
                n == values@.len(),
                n <= MAX_SLOTS,
                vals.wf(),
                bits.wf(),
                vals@ == option_values(values@).take(i as int),
                vals.spec_len() == i,
                bits@ == option_validity(values@).take(i as int),
                bits.spec_len() == i,
                bits.bytes().len() == spec_ceil8(n as nat),
            decreases n - i,
        {
            proof {
                assert(spec_ceil8((i + 1) as nat) <= spec_ceil8(n as nat));
            }
            match values[i] {
                Some(v) => {
                    vals.append(v);
                    bits.append(true);
                },
                None => {
                    vals.advance(1);
                    bits.append(false);
                },
            }
            i = i + 1;
            proof {
                assert(vals@ =~= option_values(values@).take(i as int));
                assert(bits@ =~= option_validity(values@).take(i as int));
            }
        }
        proof {
            assert(option_values(values@).take(n as int) =~= option_values(values@));
            assert(option_validity(values@).take(n as int) =~= option_validity(values@));
            vals.lemma_wf();
            bits.lemma_wf();
            lemma_count_nulls_held(bits.bytes(), bits@);
        }
        let bitmap = bits.finish();
        let buffer = vals.finish();
        let data = flat_data(T::data_type(), n, buffer, Some(bitmap));
        PrimitiveArray { data, _marker: PhantomData }
    }

    /// An array of the given values, none of them null, with no bitmap.
    pub fn from_values(values: Vec<T::Native>) -> (r: Self)
        requires
            values@.len() <= MAX_SLOTS,
        ensures
            r.wf(),
            r@.data_type == T::spec_data_type(),
            r@.len == values@.len(),
            r@.offset == 0,
            r@.buffers == seq![encode_all(values@)],
            r@.null_bitmap == None::<Seq<u8>>,
            r@.null_count == 0,
            r@.child_data == Seq::<ArrayDataView>::empty(),
    {
        let n: usize = values.len();
        let buffer = Buffer::from_slice_ref(values.as_slice());
        proof {
            lemma_encode_len(values@);
        }
        let data = flat_data(T::data_type(), n, buffer, None);
        PrimitiveArray { data, _marker: PhantomData }
    }

    /// The array data.
    pub fn data(&self) -> (r: &ArrayData)
        ensures
            r@ == self@,
    {
        &self.data
    }

    /// The array data, the array given up.
    pub fn into_data(self) -> (r: ArrayData)
        ensures
            r@ == self@,
    {
        self.data
    }

    /// The array as a handle to an array of any type.
    pub fn into_ref(self) -> (r: ArrayRef)
        ensures
            r@ == self@,
    {
        make_array(self.data)
    }

    /// The declared type.
    pub fn data_type(&self) -> (r: &DataType)
        ensures
            r@ == self@.data_type,
    {
        self.data.data_type()
    }

    /// The number of slots.
    pub fn len(&self) -> (r: usize)
        ensures
            r == self@.len,
    {
        self.data.len()
    }

    /// Whether there is no slot.
    pub fn is_empty(&self) -> (r: bool)
        ensures
            r == (self@.len == 0),
    {
        self.data.is_empty()
    }

    /// The slot at which the array starts in its buffers.
    pub fn offset(&self) -> (r: usize)
        ensures
            r == self@.offset,
    {
        self.data.offset()
    }

    /// The number of null slots.
    pub fn null_count(&self) -> (r: usize)
        ensures
            r == self@.null_count,
    {
        self.data.null_count()
    }

    /// Whether slot `i` is null.
    pub fn is_null(&self, i: usize) -> (r: bool)
        requires
            self.wf(),
            i < self@.len,
        ensures
            r == !self@.is_valid(i as int),
    {
        self.data.is_null(i)
    }

    /// Whether slot `i` holds a value.
    pub fn is_valid(&self, i: usize) -> (r: bool)
        requires
            self.wf(),
            i < self@.len,
        ensures
            r == self@.is_valid(i as int),
    {
        self.data.is_valid(i)
    }

    /// The value in slot `i`; what a null slot holds means nothing.
    pub fn value(&self, i: usize) -> (r: T::Native)
        requires
            self.wf(),
            i < self@.len,
        ensures
            r == self.spec_value(i as int),
    {
        let at: usize = self.data.offset() + i;
        proof {
            let w = T::Native::byte_width();
            assert((at + 1) * w <= (self@.offset + self@.len) * w) by (nonlinear_arith)
                requires
                    at + 1 <= self@.offset + self@.len,
                    w >= 0,
            ;
        }
        self.data.buffers()[0].value::<T::Native>(at)
    }

    /// The values of all slots.
    pub fn values(&self) -> (r: Vec<T::Native>)
        requires
            self.wf(),
        ensures
            r@ == self.spec_values(),
    {
        let n: usize = self.data.len();
        let mut out: Vec<T::Native> = Vec::new();
        let mut i: usize = 0;
        while i < n
            invariant
                i <= n,
                n == self@.len,
                self.wf(),
                out@ == self.spec_values().take(i as int),
            decreases n - i,
        {
            out.push(self.value(i));
            proof {
                assert(out@ =~= self.spec_values().take(i + 1));
            }
            i = i + 1;
        }
        proof {
            assert(self.spec_values().take(n as int) =~= self.spec_values());
        }
        out
    }
}

/// A flat array over the bytes of `values` reads back `values`.
pub proof fn lemma_flat_values<T: ArrowPrimitiveType>(
    array: PrimitiveArray<T>,
    values: Seq<T::Native>,
)
    requires
        array@.offset == 0,
        array@.len == values.len(),
        array@.buffers.len() == 1,
        array@.buffers[0] == encode_all(values),
    ensures
        array.spec_values() == values,
{
    assert forall|i: int| 0 <= i < values.len() implies array.spec_value(i) == values[i] by {
        lemma_encode_slot(values, i);
    }
    assert(array.spec_values() =~= values);
}

/// An array of booleans, bit-packed.
#[derive(Debug, PartialEq, Eq)]
pub struct BooleanArray {
    data: ArrayData,
}

impl View for BooleanArray {
    type V = ArrayDataView;

    closed spec fn view(&self) -> ArrayDataView {
        self.data@
    }
}

impl BooleanArray {
    /// Whether `d` is laid out as a boolean array: one buffer with a bit for
    /// every slot, and a bitmap, if any, with a bit for every slot.
    pub open spec fn layout(d: ArrayDataView) -> bool {
        &&& d.buffers.len() == 1
        &&& d.offset + d.len <= 8 * d.buffers[0].len()
        &&& d.offset + d.len <= usize::MAX
        &&& d.bitmap_covers()
    }

    /// The array data is laid out as an array of this type.
    pub open spec fn wf(&self) -> bool {
        Self::layout(self@)
    }

    /// The value in slot `i`.
    pub open spec fn spec_value(&self, i: int) -> bool {
        bit_at(self@.buffers[0], self@.offset + i)
    }

    /// The array over `data`.
    pub fn from_data(data: ArrayData) -> (r: Self)
        requires
            Self::layout(data@),
        ensures
            r@ == data@,
            r.wf(),
    {
        BooleanArray { data }
    }

    /// An array of the given values, `None` for a null slot. The null slots
    /// hold `false`, and the bitmap is always there.
    pub fn from_options(values: Vec<Option<bool>>) -> (r: Self)
        requires
            values@.len() <= MAX_BITS,
        ensures
            r.wf(),
            r@.data_type == DataTypeView::Boolean,
            r@.len == values@.len(),
            r@.offset == 0,
            r@.buffers == seq![
                pack_bits(
                    Seq::new(values@.len(), |i: int| values@[i] == Some(true)),
                    spec_ceil8(values@.len()),
                ),
            ],
            r@.null_bitmap == Some(
                pack_bits(option_validity(values@), spec_ceil8(values@.len())),
            ),
            r@.null_count == values@.len() - count_true(option_validity(values@)),
            r@.child_data == Seq::<ArrayDataView>::empty(),
    {
        let n: usize = values.len();
        let ghost wanted = Seq::new(values@.len(), |i: int| values@[i] == Some(true));
        let mut vals = BooleanBufferBuilder::new(n);
        let mut bits = BooleanBufferBuilder::new(n);
        let mut i: usize = 0;
        while i < n
            invariant
                i <= n,
                n == values@.len(),
                n <= MAX_BITS,
                vals.wf(),
                bits.wf(),
                wanted == Seq::new(values@.len(), |i: int| values@[i] == Some(true)),
                vals@ == wanted.take(i as int),
                vals.spec_len() == i,
                vals.bytes().len() == spec_ceil8(n as nat),
                bits@ == option_validity(values@).take(i as int),
                bits.spec_len() == i,
                bits.bytes().len() == spec_ceil8(n as nat),
            decreases n - i,
        {
            proof {
                assert(spec_ceil8((i + 1) as nat) <= spec_ceil8(n as nat));
            }
            match values[i] {
                Some(v) => {
                    vals.append(v);
                    bits.append(true);
                },
                None => {
                    vals.append(false);
                    bits.append(false);
                },
            }
            i = i + 1;
            proof {
                assert(vals@ =~= wanted.take(i as int));
                assert(bits@ =~= option_validity(values@).take(i as int));
            }
        }
        proof {
            assert(wanted.take(n as int) =~= wanted);
            assert(option_validity(values@).take(n as int) =~= option_validity(values@));
            vals.lemma_wf();
            bits.lemma_wf();
            lemma_count_nulls_held(bits.bytes(), bits@);
        }
        let bitmap = bits.finish();
        let buffer = vals.finish();
        let data = flat_data(DataType::Boolean, n, buffer, Some(bitmap));
        BooleanArray { data }
    }

    /// An array of the given values, none of them null, with no bitmap.
    pub fn from_values(values: Vec<bool>) -> (r: Self)
        requires
            values@.len() <= MAX_BITS,
        ensures
            r.wf(),
            r@.data_type == DataTypeView::Boolean,
            r@.len == values@.len(),
            r@.offset == 0,
            r@.buffers == seq![pack_bits(values@, spec_ceil8(values@.len()))],
            r@.null_bitmap == None::<Seq<u8>>,
            r@.null_count == 0,
            r@.child_data == Seq::<ArrayDataView>::empty(),
    {
        let n: usize = values.len();
        let mut vals = BooleanBufferBuilder::new(n);
        vals.append_slice(values.as_slice());
        proof {
            vals.lemma_wf();
            assert(vals@ =~= values@);
        }
        let buffer = vals.finish();
        let data = flat_data(DataType::Boolean, n, buffer, None);
        BooleanArray { data }
    }

    /// The array data.
    pub fn data(&self) -> (r: &ArrayData)
        ensures
            r@ == self@,
    {
        &self.data
    }

    /// The array data, the array given up.
    pub fn into_data(self) -> (r: ArrayData)
        ensures
            r@ == self@,
    {
        self.data
    }

    /// The array as a handle to an array of any type.
    pub fn into_ref(self) -> (r: ArrayRef)
        ensures
            r@ == self@,
    {
        make_array(self.data)
    }

    /// The bit-packed values.
    pub fn values(&self) -> (r: &Buffer)
        requires
            self.wf(),
        ensures
            r@ == self@.buffers[0],
    {
        &self.data.buffers()[0]
    }

    /// The number of slots.
    pub fn len(&self) -> (r: usize)
        ensures
            r == self@.len,
    {
        self.data.len()
    }

    /// Whether there is no slot.
    pub fn is_empty(&self) -> (r: bool)
        ensures
            r == (self@.len == 0),
    {
        self.data.is_empty()
    }

    /// The slot at which the array starts in its buffers.
    pub fn offset(&self) -> (r: usize)
        ensures
            r == self@.offset,
    {
        self.data.offset()
    }

    /// The number of null slots.
    pub fn null_count(&self) -> (r: usize)
        ensures
            r == self@.null_count,
    {
        self.data.null_count()
    }

    /// Whether slot `i` is null.
    pub fn is_null(&self, i: usize) -> (r: bool)
        requires
            self.wf(),
            i < self@.len,
        ensures
            r == !self@.is_valid(i as int),
    {
        self.data.is_null(i)
    }

    /// Whether slot `i` holds a value.
    pub fn is_valid(&self, i: usize) -> (r: bool)
        requires
            self.wf(),
            i < self@.len,
        ensures
            r == self@.is_valid(i as int),
    {
        self.data.is_valid(i)
    }

    /// The value in slot `i`; what a null slot holds means nothing.
    pub fn value(&self, i: usize) -> (r: bool)
        requires
            self.wf(),
            i < self@.len,
        ensures
            r == self.spec_value(i as int),
    {
        self.data.buffers()[0].get_bit(self.data.offset() + i)
    }
}

pub type Int8Array = PrimitiveArray<crate::types::Int8Type>;

pub type Int16Array = PrimitiveArray<crate::types::Int16Type>;

pub type Int32Array = PrimitiveArray<crate::types::Int32Type>;

pub type Int64Array = PrimitiveArray<crate::types::Int64Type>;

pub type UInt8Array = PrimitiveArray<crate::types::UInt8Type>;

pub type UInt16Array = PrimitiveArray<crate::types::UInt16Type>;

pub type UInt32Array = PrimitiveArray<crate::types::UInt32Type>;

pub type UInt64Array = PrimitiveArray<crate::types::UInt64Type>;

pub type Float32Array = PrimitiveArray<crate::types::Float32Type>;

pub type Float64Array = PrimitiveArray<crate::types::Float64Type>;

pub type Date32Array = PrimitiveArray<crate::types::Date32Type>;

pub type Date64Array = PrimitiveArray<crate::types::Date64Type>;

pub type Time32SecondArray = PrimitiveArray<crate::types::Time32SecondType>;

pub type Time32MillisecondArray = PrimitiveArray<crate::types::Time32MillisecondType>;

pub type Time64MicrosecondArray = PrimitiveArray<crate::types::Time64MicrosecondType>;

pub type Time64NanosecondArray = PrimitiveArray<crate::types::Time64NanosecondType>;

pub type TimestampSecondArray = PrimitiveArray<crate::types::TimestampSecondType>;

pub type TimestampMillisecondArray = PrimitiveArray<crate::types::TimestampMillisecondType>;

pub type TimestampMicrosecondArray = PrimitiveArray<crate::types::TimestampMicrosecondType>;

pub type TimestampNanosecondArray = PrimitiveArray<crate::types::TimestampNanosecondType>;

pub type IntervalYearMonthArray = PrimitiveArray<crate::types::IntervalYearMonthType>;

pub type IntervalDayTimeArray = PrimitiveArray<crate::types::IntervalDayTimeType>;

pub type DurationSecondArray = PrimitiveArray<crate::types::DurationSecondType>;

pub type DurationMillisecondArray = PrimitiveArray<crate::types::DurationMillisecondType>;

pub type DurationMicrosecondArray = PrimitiveArray<crate::types::DurationMicrosecondType>;

pub type DurationNanosecondArray = PrimitiveArray<crate::types::DurationNanosecondType>;

} // verus!
