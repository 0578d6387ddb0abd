//! The frozen form of an array: its type, its length, its buffers, its
//! validity bitmap and its child arrays.

use crate::bit_util::{bit_at, bits_of, count_true, get_bit};
use crate::buffer::Buffer;
use crate::datatypes::{clone_data_type, DataType, DataTypeView};
use vstd::prelude::*;

verus! {

/// The frozen form of an array.
#[derive(Debug, PartialEq, Eq)]
pub struct ArrayData {
    data_type: DataType,
    len: usize,
    null_count: usize,
    offset: usize,
    buffers: Vec<Buffer>,
    child_data: Vec<ArrayData>,
    null_bitmap: Option<Buffer>,
}

/// What an `ArrayData` holds, buffers and child arrays taken by their
/// content.
pub ghost struct ArrayDataView {
    pub data_type: DataTypeView,
    pub len: nat,
    pub null_count: nat,
    pub offset: nat,
    pub buffers: Seq<Seq<u8>>,
    pub child_data: Seq<ArrayDataView>,
    pub null_bitmap: Option<Seq<u8>>,
}

impl ArrayDataView {
    /// Whether slot `i` holds a value: there is no bitmap, or its bit for
    /// the slot is on.
    pub open spec fn is_valid(self, i: int) -> bool {
        match self.null_bitmap {
            None => true,
            Some(bitmap) => bit_at(bitmap, self.offset + i),
        }
    }

    /// The validity of each slot.
    pub open spec fn validity(self) -> Seq<bool> {
        Seq::new(self.len, |i: int| self.is_valid(i))
    }

    /// Whether the bitmap, if there is one, has a bit for every slot.
    pub open spec fn bitmap_covers(self) -> bool {
        match self.null_bitmap {
            None => true,
            Some(bitmap) => self.offset + self.len <= 8 * bitmap.len() && self.offset + self.len
                <= usize::MAX,
        }
    }
}

/// The number of slots among `len` from `offset` on whose bit in `bitmap` is
/// off; zero where there is no bitmap.
pub open spec fn spec_count_nulls(bitmap: Option<Seq<u8>>, offset: nat, len: nat) -> nat {
    match bitmap {
        None => 0,
        Some(b) => (len - count_true(bits_of(b, offset + len).skip(offset as int))) as nat,
    }
}

/// The contents of the buffers of `buffers`.
pub open spec fn buffers_view(buffers: Seq<Buffer>) -> Seq<Seq<u8>> {
    Seq::new(buffers.len(), |i: int| buffers[i]@)
}

/// The views of the arrays of `children`.
pub closed spec fn children_view(children: Seq<ArrayData>) -> Seq<ArrayDataView>
    decreases children,
{
    if children.len() == 0 {
        Seq::empty()
    } else {
        children_view(children.drop_last()).push(array_data_view(children.last()))
    }
}

/// What `data` holds.
pub closed spec fn array_data_view(data: ArrayData) -> ArrayDataView
    decreases data,
{
    ArrayDataView {
        data_type: data.data_type@,
        len: data.len as nat,
        null_count: data.null_count as nat,
        offset: data.offset as nat,
        buffers: buffers_view(data.buffers@),
        child_data: children_view(data.child_data@),
        null_bitmap: match data.null_bitmap {
            Some(b) => Some(b@),
            None => None,
        },
    }
}

impl View for ArrayData {
    type V = ArrayDataView;

    open spec fn view(&self) -> ArrayDataView {
        array_data_view(*self)
    }
}

/// The view of a list of arrays is the list of their views.
pub proof fn lemma_children_view(children: Seq<ArrayData>)
    ensures
        children_view(children).len() == children.len(),
        forall|i: int|
            0 <= i < children.len() ==> #[trigger] children_view(children)[i] == children[i]@,
    decreases children.len(),
{
    if children.len() > 0 {
        lemma_children_view(children.drop_last());
    }
}

/// The views of a list of arrays with one more are the views of the list
/// with the view of that one more.
pub proof fn lemma_children_view_push(children: Seq<ArrayData>, child: ArrayData)
    ensures
        children_view(children.push(child)) == children_view(children).push(child@),
{
    assert(children.push(child).drop_last() =~= children);
}

/// No arrays have no views.
pub proof fn lemma_children_view_empty()
    ensures
        children_view(Seq::<ArrayData>::empty()) == Seq::<ArrayDataView>::empty(),
{
}

/// Counts the slots among `len` from `offset` on whose bit in `bitmap` is off.
pub fn count_nulls(bitmap: &Option<Buffer>, offset: usize, len: usize) -> (r: usize)
    requires
        match bitmap {
            Some(b) => offset + len <= 8 * b@.len() && offset + len <= usize::MAX,
            None => true,
        },
    ensures
        r == spec_count_nulls(
            match bitmap {
                Some(b) => Some(b@),
                None => None,
            },
            offset as nat,
            len as nat,
        ),
        r <= len,
{
    match bitmap {
        None => 0,
        Some(b) => {
            let ghost bits = bits_of(b@, (offset + len) as nat).skip(offset as int);
            let mut set: usize = 0;
            let mut i: usize = 0;
            while i < len
                invariant
                    i <= len,
                    offset + len <= 8 * b@.len(),
                    offset + len <= usize::MAX,
                    bits == bits_of(b@, (offset + len) as nat).skip(offset as int),
                    set == count_true(bits.take(i as int)),
                    set <= i,
                decreases len - i,
            {
                proof {
                    assert(bits.take(i + 1).drop_last() =~= bits.take(i as int));
                }
                if b.get_bit(offset + i) {
                    set = set + 1;
                }
                i = i + 1;
            }
            proof {
                assert(bits.take(len as int) =~= bits);
            }
            len - set
        },
    }
}

impl Clone for ArrayData {
    fn clone(&self) -> (r: Self)
        ensures
            r@ == self@,
    {
        clone_array_data(self)
    }
}

/// A copy of `data`.
pub fn clone_array_data(data: &ArrayData) -> (r: ArrayData)
    ensures
        r@ == data@,
    decreases data,
{
    let mut buffers: Vec<Buffer> = Vec::new();
    let mut i: usize = 0;
    while i < data.buffers.len()
        invariant
            i <= data.buffers@.len(),
            buffers@.len() == i,
            forall|k: int| 0 <= k < i ==> (#[trigger] buffers@[k])@ == data.buffers@[k]@,
        decreases data.buffers@.len() - i,
    {
        buffers.push(data.buffers[i].clone());
        i = i + 1;
    }
    let mut child_data: Vec<ArrayData> = Vec::new();
    let mut j: usize = 0;
    while j < data.child_data.len()
        invariant
            j <= data.child_data@.len(),
            child_data@.len() == j,
            forall|k: int| 0 <= k < j ==> (#[trigger] child_data@[k])@ == data.child_data@[k]@,
        decreases data.child_data@.len() - j,
    {
        let child = clone_array_data(&data.child_data[j]);
        child_data.push(child);
        j = j + 1;
    }
    let null_bitmap = match &data.null_bitmap {
        Some(b) => Some(b.clone()),
        None => None,
    };
    proof {
        lemma_children_view(child_data@);
        lemma_children_view(data.child_data@);
        assert(children_view(child_data@) =~= children_view(data.child_data@));
        assert(buffers_view(buffers@) =~= buffers_view(data.buffers@));
    }
    ArrayData {
        data_type: clone_data_type(&data.data_type),
        len: data.len,
        null_count: data.null_count,
        offset: data.offset,
        buffers,
        child_data,
        null_bitmap,
    }
}

impl ArrayData {
    /// An array data for the given parts. Where `null_count` is not given, it
    /// is counted from the bitmap.
    pub fn new(
        data_type: DataType,
        len: usize,
        null_count: Option<usize>,
        null_bit_buffer: Option<Buffer>,
        offset: usize,
        buffers: Vec<Buffer>,
        child_data: Vec<ArrayData>,
    ) -> (r: Self)
        requires
            null_count is None ==> match null_bit_buffer {
                Some(b) => offset + len <= 8 * b@.len() && offset + len <= usize::MAX,
                None => true,
            },
        ensures
            r@.data_type == data_type@,
            r@.len == len,
            r@.offset == offset,
            r@.buffers == buffers_view(buffers@),
            r@.child_data == children_view(child_data@),
            r@.null_bitmap == match null_bit_buffer {
                Some(b) => Some(b@),
                None => None,
            },
            r@.null_count == match null_count {
                Some(n) => n as nat,
                None => spec_count_nulls(r@.null_bitmap, offset as nat, len as nat),
            },
    {
        let null_count = match null_count {
            None => count_nulls(&null_bit_buffer, offset, len),
            Some(null_count) => null_count,
        };
        ArrayData {
            data_type,
            len,
            null_count,
            offset,
            buffers,
            child_data,
            null_bitmap: null_bit_buffer,
        }
    }

    /// A builder for an array data of the given type.
    pub fn builder(data_type: DataType) -> (r: ArrayDataBuilder)
        ensures
            r@ == ArrayDataBuilder::spec_new(data_type@),
    {
        ArrayDataBuilder::new(data_type)
    }

    /// The declared type.
    pub fn data_type(&self) -> (r: &DataType)
        ensures
            r@ == self@.data_type,
    {
        &self.data_type
    }

    /// The number of slots.
    pub fn len(&self) -> (r: usize)
        ensures
            r == self@.len,
    {
        self.len
    }

    /// Whether there is no slot.
    pub fn is_empty(&self) -> (r: bool)
        ensures
            r == (self@.len == 0),
    {
        self.len == 0
    }

    /// The slot at which the array starts in its buffers.
    pub fn offset(&self) -> (r: usize)
        ensures
            r == self@.offset,
    {
        self.offset
    }

    /// The number of null slots.
    pub fn null_count(&self) -> (r: usize)
        ensures
            r == self@.null_count,
    {
        self.null_count
    }

    /// The buffers.
    pub fn buffers(&self) -> (r: &Vec<Buffer>)
        ensures
            buffers_view(r@) == self@.buffers,
            r@.len() == self@.buffers.len(),
            forall|i: int| 0 <= i < r@.len() ==> (#[trigger] r@[i])@ == self@.buffers[i],
    {
        &self.buffers
    }

    /// The child arrays.
    pub fn child_data(&self) -> (r: &Vec<ArrayData>)
        ensures
            children_view(r@) == self@.child_data,
            r@.len() == self@.child_data.len(),
            forall|i: int| 0 <= i < r@.len() ==> (#[trigger] r@[i])@ == self@.child_data[i],
    {
        proof {
            lemma_children_view(self.child_data@);
        }
        &self.child_data
    }

    /// The validity bitmap, if there is one.
    pub fn null_bitmap(&self) -> (r: &Option<Buffer>)
        ensures
            self@.null_bitmap == match r {
                Some(b) => Some(b@),
                None => None,
            },
    {
        &self.null_bitmap
    }

    /// The validity bitmap as a buffer, if there is one.
    pub fn null_buffer(&self) -> (r: Option<&Buffer>)
        ensures
            self@.null_bitmap == match r {
                Some(b) => Some(b@),
                None => None,
            },
    {
        self.null_bitmap.as_ref()
    }

    /// Whether slot `i` holds a value.
    pub fn is_valid(&self, i: usize) -> (r: bool)
        requires
            i < self@.len,
            self@.bitmap_covers(),
        ensures
            r == self@.is_valid(i as int),
    {
        match &self.null_bitmap {
            Some(b) => b.get_bit(self.offset + i),
            None => true,
        }
    }

    /// Whether slot `i` is null.
    pub fn is_null(&self, i: usize) -> (r: bool)
        requires
            i < self@.len,
            self@.bitmap_covers(),
        ensures
            r == !self@.is_valid(i as int),
    {
        !self.is_valid(i)
    }
}

/// What an `ArrayDataBuilder` has been given so far.
pub ghost struct ArrayDataBuilderView {
    pub data_type: DataTypeView,
    pub len: nat,
    pub null_count: Option<nat>,
    pub null_bit_buffer: Option<Seq<u8>>,
    pub offset: nat,
    pub buffers: Seq<Seq<u8>>,
    pub child_data: Seq<ArrayDataView>,
}

/// Builder for `ArrayData`: gathers the parts, then builds.
#[derive(Debug)]
pub struct ArrayDataBuilder {
    data_type: DataType,
    len: usize,
    null_count: Option<usize>,
    null_bit_buffer: Option<Buffer>,
    offset: usize,
    buffers: Vec<Buffer>,
    child_data: Vec<ArrayData>,
}

impl View for ArrayDataBuilder {
    type V = ArrayDataBuilderView;

    closed spec fn view(&self) -> ArrayDataBuilderView {
        ArrayDataBuilderView {
            data_type: self.data_type@,
            len: self.len as nat,
            null_count: match self.null_count {
                Some(n) => Some(n as nat),
                None => None,
            },
            null_bit_buffer: match self.null_bit_buffer {
                Some(b) => Some(b@),
                None => None,
            },
            offset: self.offset as nat,
            buffers: buffers_view(self.buffers@),
            child_data: children_view(self.child_data@),
        }
    }
}

impl ArrayDataBuilder {
    /// What a new builder for `data_type` holds: no slot, no buffer, no child.
    pub open spec fn spec_new(data_type: DataTypeView) -> ArrayDataBuilderView {
        ArrayDataBuilderView {
            data_type,
            len: 0,
            null_count: None,
            null_bit_buffer: None,
            offset: 0,
            buffers: Seq::empty(),
            child_data: Seq::empty(),
        }
    }

    /// The array data that `build` gives for what was gathered.
    pub open spec fn spec_build(v: ArrayDataBuilderView) -> ArrayDataView {
        ArrayDataView {
            data_type: v.data_type,
            len: v.len,
            null_count: match v.null_count {
                Some(n) => n,
                None => spec_count_nulls(v.null_bit_buffer, v.offset, v.len),
            },
            offset: v.offset,
            buffers: v.buffers,
            child_data: v.child_data,
            null_bitmap: v.null_bit_buffer,
        }
    }

    /// A builder for an array data of the given type.
    pub fn new(data_type: DataType) -> (r: Self)
        ensures
            r@ == Self::spec_new(data_type@),
    {
        proof {
            assert(buffers_view(Seq::<Buffer>::empty()) =~= Seq::<Seq<u8>>::empty());
        }
        Self {
            data_type,
            len: 0,
            null_count: None,
            null_bit_buffer: None,
            offset: 0,
            buffers: Vec::new(),
            child_data: Vec::new(),
        }
    }

    /// Sets the number of slots.
    pub fn len(self, n: usize) -> (r: Self)
        ensures
            r@ == (ArrayDataBuilderView { len: n as nat, ..self@ }),
    {
        let mut this = self;
        this.len = n;
        this
    }

    /// Sets the number of null slots.
    pub fn null_count(self, n: usize) -> (r: Self)
        ensures
            r@ == (ArrayDataBuilderView { null_count: Some(n as nat), ..self@ }),
    {
        let mut this = self;
        this.null_count = Some(n);
        this
    }

    /// Sets the validity bitmap.
    pub fn null_bit_buffer(self, buf: Buffer) -> (r: Self)
        ensures
            r@ == (ArrayDataBuilderView { null_bit_buffer: Some(buf@), ..self@ }),
    {
        let mut this = self;
        this.null_bit_buffer = Some(buf);
        this
    }

    /// Sets the slot at which the array starts in its buffers.
    pub fn offset(self, n: usize) -> (r: Self)
        ensures
            r@ == (ArrayDataBuilderView { offset: n as nat, ..self@ }),
    {
        let mut this = self;
        this.offset = n;
        this
    }

    /// Sets the buffers.
    pub fn buffers(self, v: Vec<Buffer>) -> (r: Self)
        ensures
            r@ == (ArrayDataBuilderView { buffers: buffers_view(v@), ..self@ }),
    {
        let mut this = self;
        this.buffers = v;
        this
    }

    /// Adds one buffer after those gathered.
    pub fn add_buffer(self, b: Buffer) -> (r: Self)
        ensures
            r@ == (ArrayDataBuilderView { buffers: self@.buffers.push(b@), ..self@ }),
    {
        let mut this = self;
        this.buffers.push(b);
        proof {
            assert(buffers_view(this.buffers@) =~= self@.buffers.push(b@));
        }
        this
    }

    /// Sets the child arrays.
    pub fn child_data(self, v: Vec<ArrayData>) -> (r: Self)
        ensures
            r@ == (ArrayDataBuilderView { child_data: children_view(v@), ..self@ }),
    {
        let mut this = self;
        this.child_data = v;
        this
    }

    /// Adds one child array after those gathered.
    pub fn add_child_data(self, r: ArrayData) -> (out: Self)
        ensures
            out@ == (ArrayDataBuilderView { child_data: self@.child_data.push(r@), ..self@ }),
    {
        let mut this = self;
        proof {
            lemma_children_view_push(this.child_data@, r);
        }
        this.child_data.push(r);
        this
    }

    /// Builds the array data.
    pub fn build(self) -> (r: ArrayData)
        requires
            self@.null_count is None ==> match self@.null_bit_buffer {
                Some(b) => self@.offset + self@.len <= 8 * b.len() && self@.offset + self@.len
                    <= usize::MAX,
                None => true,
            },
        ensures
            r@ == Self::spec_build(self@),
    {
        ArrayData::new(
            self.data_type,
            self.len,
            self.null_count,
            self.null_bit_buffer,
            self.offset,
            self.buffers,
            self.child_data,
        )
    }
}

} // verus!
