//! Immutable arrays of tagged unions: a type id for every slot, a child
//! array for every field and, in the dense layout, the slot's place in its
//! field's child.

use crate::array::{make_array, ArrayRef};
use crate::array_data::{
    buffers_view, children_view, clone_array_data, count_nulls, lemma_children_view,
    spec_count_nulls, ArrayData, ArrayDataView,
};
use crate::buffer::Buffer;
use crate::datatypes::{fields_view, DataType, DataTypeView, Field, FieldView};
use crate::error::ArrowError;
use crate::native::{decode_all, from_bytes, slot_bytes};
use vstd::prelude::*;

verus! {

/// The fields of `children`.
pub open spec fn child_fields(children: Seq<(Field, ArrayRef)>) -> Seq<FieldView> {
    Seq::new(children.len(), |i: int| children[i].0@)
}

/// The arrays of `children`.
pub open spec fn child_views(children: Seq<(Field, ArrayRef)>) -> Seq<ArrayDataView> {
    Seq::new(children.len(), |i: int| children[i].1@)
}

/// Whether the parts make up a union: in the dense layout there is a 32-bit
/// offset for each slot that is not null, no type id is negative, and no
/// offset is negative or more than the number of slots.
pub open spec fn union_consistent(
    type_ids: Seq<u8>,
    value_offsets: Option<Seq<u8>>,
    bitmap: Option<Seq<u8>>,
) -> bool {
    &&& match value_offsets {
        Some(b) => (type_ids.len() - spec_count_nulls(bitmap, 0, type_ids.len())) * 4 == b.len(),
        None => true,
    }
    &&& forall|i: int| 0 <= i < type_ids.len() ==> #[trigger] decode_all::<i8>(type_ids)[i] >= 0
    &&& match value_offsets {
        Some(b) => forall|i: int|
            0 <= i < decode_all::<i32>(b).len() ==> 0 <= #[trigger] decode_all::<i32>(b)[i]
                <= max_offset(type_ids.len()),
        None => true,
    }
}

/// The largest offset a union of `len` slots allows: `len` as a 32-bit
/// number.
pub open spec fn max_offset(len: nat) -> i32 {
    len as i32
}

/// The array data of a union of the given parts.
pub open spec fn union_data(
    type_ids: Seq<u8>,
    value_offsets: Option<Seq<u8>>,
    fields: Seq<FieldView>,
    children: Seq<ArrayDataView>,
    bitmap: Option<Seq<u8>>,
) -> ArrayDataView {
    ArrayDataView {
        data_type: DataTypeView::Union(fields),
        len: type_ids.len(),
        null_count: spec_count_nulls(bitmap, 0, type_ids.len()),
        offset: 0,
        buffers: match value_offsets {
            Some(b) => seq![type_ids, b],
            None => seq![type_ids],
        },
        child_data: children,
        null_bitmap: bitmap,
    }
}

/// An array of tagged unions.
#[derive(Debug, PartialEq, Eq)]
pub struct UnionArray {
    data: ArrayData,
}

impl View for UnionArray {
    type V = ArrayDataView;

    closed spec fn view(&self) -> ArrayDataView {
        self.data@
    }
}

/// Whether every type id of `ids` is at least zero.
fn no_negative_id(ids: &Vec<i8>) -> (r: bool)
    ensures
        r == forall|i: int| 0 <= i < ids@.len() ==> #[trigger] ids@[i] >= 0,
{
    let mut i: usize = 0;
    while i < ids.len()
        invariant
            i <= ids@.len(),
            forall|k: int| 0 <= k < i ==> #[trigger] ids@[k] >= 0,
        decreases ids@.len() - i,
    {
        if ids[i] < 0 {
            return false;
        }
        i = i + 1;
    }
    true
}

/// Whether every offset of `offsets` is between zero and `max`.
fn offsets_within(offsets: &Vec<i32>, max: i32) -> (r: bool)
    ensures
        r == forall|i: int| 0 <= i < offsets@.len() ==> 0 <= #[trigger] offsets@[i] <= max,
{
    let mut i: usize = 0;
    while i < offsets.len()
        invariant
            i <= offsets@.len(),
            forall|k: int| 0 <= k < i ==> 0 <= #[trigger] offsets@[k] <= max,
        decreases offsets@.len() - i,
    {
        if offsets[i] < 0 || offsets[i] > max {
            return false;
        }
        i = i + 1;
    }
    true
}

/// Parts the fields from the arrays.
fn unzip_children(child_arrays: Vec<(Field, ArrayRef)>) -> (r: (Vec<Field>, Vec<ArrayData>))
    ensures
        fields_view(r.0@) == child_fields(child_arrays@),
        children_view(r.1@) == child_views(child_arrays@),
{
    let mut fields: Vec<Field> = Vec::new();
    let mut arrays: Vec<ArrayData> = Vec::new();
    let mut rest = child_arrays;
    let ghost all = rest@;
    let n: usize = rest.len();
    let mut i: usize = 0;
    while i < n
        invariant
            i <= n,
            n == all.len(),
            rest@.len() == n - i,
            forall|k: int| 0 <= k < n - i ==> #[trigger] rest@[k] == all[k],
            fields@.len() == i,
            arrays@.len() == i,
            forall|k: int| 0 <= k < i ==> (#[trigger] fields@[k])@ == all[n - 1 - k].0@,
            forall|k: int| 0 <= k < i ==> (#[trigger] arrays@[k])@ == all[n - 1 - k].1@,
        decreases n - i,
    {
        match rest.pop() {
            Some((field, array)) => {
                fields.push(field);
                arrays.push(array.into_data());
            },
            None => {},
        }
        i = i + 1;
    }
    let mut fields_in_order: Vec<Field> = Vec::new();
    let mut arrays_in_order: Vec<ArrayData> = Vec::new();
    let mut j: usize = 0;
    while j < n
        invariant
            j <= n,
            n == all.len(),
            fields@.len() == n - j,
            arrays@.len() == n - j,
            forall|k: int| 0 <= k < n - j ==> (#[trigger] fields@[k])@ == all[n - 1 - k].0@,
            forall|k: int| 0 <= k < n - j ==> (#[trigger] arrays@[k])@ == all[n - 1 - k].1@,
            fields_in_order@.len() == j,
            arrays_in_order@.len() == j,
            forall|k: int| 0 <= k < j ==> (#[trigger] fields_in_order@[k])@ == all[k].0@,
            forall|k: int| 0 <= k < j ==> (#[trigger] arrays_in_order@[k])@ == all[k].1@,
        decreases n - j,
    {
        match fields.pop() {
            Some(field) => {
                fields_in_order.push(field);
            },
            None => {},
        }
        match arrays.pop() {
            Some(array) => {
                arrays_in_order.push(array);
            },
            None => {},
        }
        j = j + 1;
    }
    proof {
        crate::datatypes::lemma_fields_view(fields_in_order@);
        lemma_children_view(arrays_in_order@);
        assert(fields_view(fields_in_order@) =~= child_fields(all));
        assert(children_view(arrays_in_order@) =~= child_views(all));
    }
    (fields_in_order, arrays_in_order)
}

impl UnionArray {
    /// Whether `d` is laid out as a union array: one buffer of type ids and,
    /// in the dense layout, a second of offsets.
    pub open spec fn layout(d: ArrayDataView) -> bool {
        &&& d.data_type is Union
        &&& d.offset == 0
        &&& 1 <= d.buffers.len() <= 2
        &&& d.buffers[0].len() == d.len
    }

    /// The array data is laid out as an array of this type.
    pub open spec fn wf(&self) -> bool {
        Self::layout(self@)
    }

    /// Whether the array is in the dense layout.
    pub open spec fn spec_is_dense(&self) -> bool {
        self@.buffers.len() == 2
    }

    /// The union of the given parts, if they make one up: the children must
    /// come in the order of their type ids.
    pub fn try_new(
        type_ids: Buffer,
        value_offsets: Option<Buffer>,
        child_arrays: Vec<(Field, ArrayRef)>,
        bitmap_data: Option<Buffer>,
    ) -> (r: Result<Self, ArrowError>)
        requires
            match bitmap_data {
                Some(b) => type_ids@.len() <= 8 * b@.len(),
                None => true,
            },
        ensures
            r is Ok <==> union_consistent(
                type_ids@,
                match value_offsets {
                    Some(b) => Some(b@),
                    None => None,
                },
                match bitmap_data {
                    Some(b) => Some(b@),
                    None => None,
                },
            ),
            r is Err ==> r->Err_0 is InvalidArgumentError,
            r is Ok ==> r->Ok_0.wf() && r->Ok_0@ == union_data(
                type_ids@,
                match value_offsets {
                    Some(b) => Some(b@),
                    None => None,
                },
                child_fields(child_arrays@),
                child_views(child_arrays@),
                match bitmap_data {
                    Some(b) => Some(b@),
                    None => None,
                },
            ),
    {
        let len: usize = type_ids.len();
        let nulls: usize = count_nulls(&bitmap_data, 0, len);
        match &value_offsets {
            Some(b) => {
                let total: usize = b.len();
                let slots: usize = len - nulls;
                proof {
                    assert(slots == total / 4 && total % 4 == 0 <==> slots * 4 == total);
                }
                if !(total % 4 == 0 && slots == total / 4) {
                    return Err(
                        ArrowError::InvalidArgumentError(
                            "Type Ids and Offsets represent a different number of array slots.".to_string(),
                        ),
                    );
                }
            },
            None => {},
        }
        // Check the type ids
        let ids: Vec<i8> = type_ids.typed_data::<i8>();
        if !no_negative_id(&ids) {
            return Err(
                ArrowError::InvalidArgumentError(
                    "Type Ids must be positive and cannot be greater than the number of child arrays".to_string(),
                ),
            );
        }
        // Check the value offsets if provided
        match &value_offsets {
            Some(offset_buffer) => {
                let max_len: i32 = #[verifier::truncate]
                (len as i32);
                let offsets: Vec<i32> = offset_buffer.typed_data::<i32>();
                if !offsets_within(&offsets, max_len) {
                    return Err(
                        ArrowError::InvalidArgumentError(
                            "Offsets must be positive and within the length of the Array".to_string(),
                        ),
                    );
                }
            },
            None => {},
        }
        Ok(Self::new(type_ids, value_offsets, child_arrays, bitmap_data))
    }

    /// The union of the given parts, unchecked.
    fn new(
        type_ids: Buffer,
        value_offsets: Option<Buffer>,
        child_arrays: Vec<(Field, ArrayRef)>,
        bitmap_data: Option<Buffer>,
    ) -> (r: Self)
        requires
            match bitmap_data {
                Some(b) => type_ids@.len() <= 8 * b@.len(),
                None => true,
            },
        ensures
            r.wf(),
            r@ == union_data(
                type_ids@,
                match value_offsets {
                    Some(b) => Some(b@),
                    None => None,
                },
                child_fields(child_arrays@),
                child_views(child_arrays@),
                match bitmap_data {
                    Some(b) => Some(b@),
                    None => None,
                },
            ),
    {
        let (fields, field_values) = unzip_children(child_arrays);
        let len: usize = type_ids.len();
        let mut buffers: Vec<Buffer> = Vec::new();
        buffers.push(type_ids);
        match value_offsets {
            Some(b) => {
                buffers.push(b);
                proof {
                    assert(buffers_view(buffers@) =~= seq![type_ids@, b@]);
                }
            },
            None => {
                proof {
                    assert(buffers_view(buffers@) =~= seq![type_ids@]);
                }
            },
        }
        let data = ArrayData::new(
            DataType::Union(fields),
            len,
            None,
            bitmap_data,
            0,
            buffers,
            field_values,
        );
        UnionArray { data }
    }

    /// The array data.
    pub fn data(&self) -> (r: &ArrayData)
        ensures
            r@ == self@,
    {
        &self.data
    }

    /// The array as a handle to an array of any type.
    pub fn into_ref(self) -> (r: ArrayRef)
        ensures
            r@ == self@,
    {
        make_array(self.data)
    }

    /// The number of slots.
    pub fn len(&self) -> (r: usize)
        ensures
            r == self@.len,
    {
        self.data.len()
    }

    /// The number of null slots.
    pub fn null_count(&self) -> (r: usize)
        ensures
            r == self@.null_count,
    {
        self.data.null_count()
    }

    /// Whether the array is in the dense layout.
    pub fn is_dense(&self) -> (r: bool)
        ensures
            r == self.spec_is_dense(),
    {
        self.data.buffers().len() == 2
    }

    /// The number of child arrays.
    pub fn num_children(&self) -> (r: usize)
        ensures
            r == self@.child_data.len(),
    {
        self.data.child_data().len()
    }

    /// The type id of slot `i`.
    pub fn type_id(&self, i: usize) -> (r: i8)
        requires
            self.wf(),
            i < self@.len,
        ensures
            r == from_bytes::<i8>(slot_bytes(self@.buffers[0], 1, i as int)),
    {
        self.data.buffers()[0].value::<i8>(i)
    }

    /// Offset `i` of a dense union: the place in its field's child of the
    /// `i`th slot that is not null.
    pub fn value_offset(&self, i: usize) -> (r: i32)
        requires
            self.wf(),
            self.spec_is_dense(),
            (i + 1) * 4 <= self@.buffers[1].len(),
        ensures
            r == from_bytes::<i32>(slot_bytes(self@.buffers[1], 4, i as int)),
    {
        self.data.buffers()[1].value::<i32>(i)
    }

    /// The child array at place `i`.
    pub fn child(&self, i: usize) -> (r: ArrayRef)
        requires
            i < self@.child_data.len(),
        ensures
            r@ == self@.child_data[i as int],
    {
        make_array(clone_array_data(&self.data.child_data()[i]))
    }
}

} // verus!
