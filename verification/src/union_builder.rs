//! Builder for arrays of tagged unions, dense or sparse. A field comes into
//! being when a value is first appended under its name; it keeps its values
//! as raw bytes, typed by the declared type it was first used with.

use crate::array::ArrayRef;
use crate::array_data::ArrayDataView;
use crate::bit_util::{count_true, pack_bits, spec_ceil8};
use crate::boolean_builder::spec_max;
use crate::buffer::MutableBuffer;
use crate::buffer_builder::{
    builder_to_mutable_buffer, mutable_buffer_to_builder, repeat, MAX_SLOTS, BooleanBufferBuilder,
    BufferBuilder,
};
use crate::datatypes::{primitive_width, DataType, DataTypeView, Field, FieldView, IntervalUnit};
use crate::error::ArrowError;
use crate::native::{to_bytes, zeros, ArrowNativeType};
use crate::types::{
    ArrowPrimitiveType, Int16Type, Int32Type, Int64Type, Int8Type, UInt16Type, UInt32Type,
    UInt64Type, UInt8Type,
};
use crate::union_array::{
    child_fields, child_views, max_offset, union_consistent, union_data, UnionArray,
};
use vstd::prelude::*;

verus! {

/// How many entries of `s` have an id of at most `id`.
pub open spec fn count_le<X>(s: Seq<(i8, X)>, id: i8) -> nat
    decreases s.len(),
{
    if s.len() == 0 {
        0
    } else {
        count_le(s.drop_last(), id) + if s.last().0 <= id {
            1nat
        } else {
            0nat
        }
    }
}

/// Whether the ids of `s` never go down.
pub open spec fn sorted_by_id<X>(s: Seq<(i8, X)>) -> bool {
    forall|i: int, j: int| 0 <= i <= j < s.len() ==> (#[trigger] s[i]).0 <= (#[trigger] s[j]).0
}

/// `s` with `x` put in after the entries whose id is at most that of `x`.
pub open spec fn insert_by_id<X>(s: Seq<(i8, X)>, x: (i8, X)) -> Seq<(i8, X)> {
    s.insert(count_le(s, x.0) as int, x)
}

/// `s` in the order of the ids; entries of one id keep their order.
pub open spec fn sort_by_id<X>(s: Seq<(i8, X)>) -> Seq<(i8, X)>
    decreases s.len(),
{
    if s.len() == 0 {
        Seq::empty()
    } else {
        insert_by_id(sort_by_id(s.drop_last()), s.last())
    }
}

/// In a sorted sequence the entries with an id of at most `id` come first.
pub proof fn lemma_count_le<X>(s: Seq<(i8, X)>, id: i8)
    requires
        sorted_by_id(s),
    ensures
        count_le(s, id) <= s.len(),
        forall|i: int| 0 <= i < count_le(s, id) ==> (#[trigger] s[i]).0 <= id,
        forall|i: int| count_le(s, id) <= i < s.len() ==> (#[trigger] s[i]).0 > id,
    decreases s.len(),
{
    if s.len() > 0 {
        let rest = s.drop_last();
        assert forall|i: int, j: int| 0 <= i <= j < rest.len() implies (#[trigger] rest[i]).0 <= (
        #[trigger] rest[j]).0 by {
            assert(rest[i] == s[i] && rest[j] == s[j]);
        }
        lemma_count_le(rest, id);
        assert forall|i: int| 0 <= i < count_le(s, id) implies (#[trigger] s[i]).0 <= id by {
            if i < rest.len() {
                assert(rest[i] == s[i]);
                if i >= count_le(rest, id) {
                    assert(s[i].0 <= s[s.len() - 1].0);
                }
            }
        }
        assert forall|i: int| count_le(s, id) <= i < s.len() implies (#[trigger] s[i]).0 > id by {
            if i < rest.len() {
                assert(rest[i] == s[i]);
            }
        }
    }
}

/// Putting an entry into a sorted sequence by its id keeps it sorted.
pub proof fn lemma_insert_by_id<X>(s: Seq<(i8, X)>, x: (i8, X))
    requires
        sorted_by_id(s),
    ensures
        sorted_by_id(insert_by_id(s, x)),
        insert_by_id(s, x).len() == s.len() + 1,
        insert_by_id(s, x).to_multiset() == s.to_multiset().insert(x),
{
    lemma_count_le(s, x.0);
    let p = count_le(s, x.0) as int;
    let t = insert_by_id(s, x);
    assert forall|i: int, j: int| 0 <= i <= j < t.len() implies (#[trigger] t[i]).0 <= (
    #[trigger] t[j]).0 by {
        if i < p {
            assert(t[i] == s[i]);
        } else if i > p {
            assert(t[i] == s[i - 1]);
        }
        if j < p {
            assert(t[j] == s[j]);
        } else if j > p {
            assert(t[j] == s[j - 1]);
        }
    }
    vstd::seq_lib::to_multiset_insert(s, p, x);
}

/// The sorted sequence is sorted, and holds what the sequence held.
pub proof fn lemma_sort_by_id<X>(s: Seq<(i8, X)>)
    ensures
        sorted_by_id(sort_by_id(s)),
        sort_by_id(s).len() == s.len(),
        sort_by_id(s).to_multiset() == s.to_multiset(),
    decreases s.len(),
{
    if s.len() > 0 {
        lemma_sort_by_id(s.drop_last());
        lemma_insert_by_id(sort_by_id(s.drop_last()), s.last());
        vstd::seq_lib::to_multiset_build(s.drop_last(), s.last());
        assert(s.drop_last().push(s.last()) =~= s);
    } else {
        assert(sort_by_id(s) =~= s);
    }
}

/// A sequence that is sorted already is its own sorted sequence.
pub proof fn lemma_sort_sorted<X>(s: Seq<(i8, X)>)
    requires
        sorted_by_id(s),
    ensures
        sort_by_id(s) == s,
    decreases s.len(),
{
    if s.len() > 0 {
        let rest = s.drop_last();
        assert forall|i: int, j: int| 0 <= i <= j < rest.len() implies (#[trigger] rest[i]).0 <= (
        #[trigger] rest[j]).0 by {
            assert(rest[i] == s[i] && rest[j] == s[j]);
        }
        lemma_sort_sorted(rest);
        lemma_count_le(rest, s.last().0);
        if count_le(rest, s.last().0) < rest.len() {
            let i = count_le(rest, s.last().0) as int;
            assert(rest[i] == s[i]);
            assert(s[i].0 <= s[s.len() - 1].0);
        }
        assert(insert_by_id(rest, s.last()) =~= s);
    } else {
        assert(sort_by_id(s) =~= s);
    }
}

/// Sorting follows the ids alone: what is done to the entries besides can
/// be done before the sort or after it.
pub proof fn lemma_sort_maps<X, Y>(s: Seq<(i8, X)>, t: Seq<(i8, Y)>, f: spec_fn(X) -> Y)
    requires
        s.len() == t.len(),
        forall|i: int| 0 <= i < s.len() ==> (#[trigger] t[i]) == (s[i].0, f(s[i].1)),
    ensures
        sort_by_id(t).len() == s.len(),
        sort_by_id(s).len() == s.len(),
        forall|i: int|
            0 <= i < s.len() ==> (#[trigger] sort_by_id(t)[i]) == (
                sort_by_id(s)[i].0,
                f(sort_by_id(s)[i].1),
            ),
    decreases s.len(),
{
    if s.len() > 0 {
        let s0 = s.drop_last();
        let t0 = t.drop_last();
        assert forall|i: int| 0 <= i < s0.len() implies (#[trigger] t0[i]) == (
            s0[i].0,
            f(s0[i].1),
        ) by {
            assert(t0[i] == t[i] && s0[i] == s[i]);
        }
        lemma_sort_maps(s0, t0, f);
        let ss = sort_by_id(s0);
        let tt = sort_by_id(t0);
        assert(t.last() == (s.last().0, f(s.last().1)));
        lemma_count_same(ss, tt, s.last().0);
    }
}

/// Sequences with the same ids count the same.
proof fn lemma_count_same<X, Y>(s: Seq<(i8, X)>, t: Seq<(i8, Y)>, id: i8)
    requires
        s.len() == t.len(),
        forall|i: int| 0 <= i < s.len() ==> (#[trigger] t[i]).0 == s[i].0,
    ensures
        count_le(s, id) == count_le(t, id),
        count_le(s, id) <= s.len(),
    decreases s.len(),
{
    if s.len() > 0 {
        let s0 = s.drop_last();
        let t0 = t.drop_last();
        assert forall|i: int| 0 <= i < s0.len() implies (#[trigger] t0[i]).0 == s0[i].0 by {
            assert(t0[i] == t[i] && s0[i] == s[i]);
        }
        lemma_count_same(s0, t0, id);
        assert(t[t.len() - 1].0 == s[s.len() - 1].0);
    }
}

/// The entries of `v`, last first.
fn reversed<V>(v: Vec<V>) -> (r: Vec<V>)
    ensures
        r@ == v@.reverse(),
{
    let mut rest = v;
    let mut out: Vec<V> = Vec::new();
    let n: usize = rest.len();
    let mut i: usize = 0;
    while i < n
        invariant
            i <= n,
            n == v@.len(),
            rest@ == v@.take(n - i),
            out@ == v@.reverse().take(i as int),
        decreases n - i,
    {
        match rest.pop() {
            Some(x) => {
                out.push(x);
            },
            None => {},
        }
        i = i + 1;
        proof {
            assert(rest@ =~= v@.take(n - i));
            assert(out@ =~= v@.reverse().take(i as int));
        }
    }
    proof {
        assert(v@.reverse().take(n as int) =~= v@.reverse());
    }
    out
}

/// Sorts `children` by their ids; entries of one id keep their order.
pub fn sort_children<X>(children: Vec<(i8, X)>) -> (r: Vec<(i8, X)>)
    ensures
        r@ == sort_by_id(children@),
{
    let n: usize = children.len();
    let mut rest = reversed(children);
    let mut out: Vec<(i8, X)> = Vec::new();
    let mut i: usize = 0;
    while i < n
        invariant
            i <= n,
            n == children@.len(),
            rest@ == children@.reverse().take(n - i),
            out@ == sort_by_id(children@.take(i as int)),
        decreases n - i,
    {
        proof {
            lemma_sort_by_id(children@.take(i as int));
            assert(children@.take(i + 1).drop_last() =~= children@.take(i as int));
        }
        match rest.pop() {
            Some(x) => {
                proof {
                    assert(x == children@[i as int]);
                    lemma_count_le(out@, x.0);
                }
                let id: i8 = x.0;
                let mut p: usize = 0;
                while p < out.len() && out[p].0 <= id
                    invariant
                        p <= out@.len(),
                        p <= count_le(out@, id),
                        count_le(out@, id) <= out@.len(),
                        forall|k: int| count_le(out@, id) <= k < out@.len() ==> (#[trigger] out@[k]).0
                            > id,
                    decreases out@.len() - p,
                {
                    p = p + 1;
                }
                proof {
                    if p < count_le(out@, id) {
                        assert(out@[p as int].0 <= id);
                    }
                }
                out.insert(p, x);
            },
            None => {},
        }
        i = i + 1;
        proof {
            assert(rest@ =~= children@.reverse().take(n - i));
        }
    }
    proof {
        assert(children@.take(n as int) =~= children@);
    }
    out
}

/// What a field of a union builder holds.
pub ghost struct FieldState {
    /// The name the field was made under.
    pub name: Seq<char>,
    /// The type id of the field.
    pub type_id: i8,
    /// The declared type the field was first used with.
    pub data_type: DataTypeView,
    /// The bytes of the values, slot after slot.
    pub bytes: Seq<u8>,
    /// The number of slots.
    pub slots: nat,
    /// Which slots hold a value: kept in the sparse layout only.
    pub validity: Option<Seq<bool>>,
}

/// The width of the values of a field, zero where its type is not primitive.
pub open spec fn field_width(f: FieldState) -> nat {
    match primitive_width(f.data_type) {
        Some(w) => w,
        None => 0,
    }
}

/// `f` with one more slot, which holds the value of the given bytes.
pub open spec fn with_value(f: FieldState, value: Seq<u8>) -> FieldState {
    FieldState {
        bytes: f.bytes + value,
        slots: f.slots + 1,
        validity: match f.validity {
            Some(v) => Some(v.push(true)),
            None => None,
        },
        ..f
    }
}

/// `f` with one more slot, which is null and holds zeros; `f` itself where
/// it keeps no validity.
pub open spec fn with_null(f: FieldState) -> FieldState {
    match f.validity {
        Some(v) => FieldState {
            bytes: f.bytes + zeros(field_width(f)),
            slots: f.slots + 1,
            validity: Some(v.push(false)),
            ..f
        },
        None => f,
    }
}

/// `f` with `n` more null slots.
pub open spec fn with_nulls(f: FieldState, n: nat) -> FieldState
    decreases n,
{
    if n == 0 {
        f
    } else {
        with_null(with_nulls(f, (n - 1) as nat))
    }
}

/// A field as it is made: empty, and keeping its validity only in the
/// sparse layout.
pub open spec fn empty_field(name: Seq<char>, type_id: i8, data_type: DataTypeView, dense: bool)
    -> FieldState {
    FieldState {
        name,
        type_id,
        data_type,
        bytes: Seq::empty(),
        slots: 0,
        validity: if dense {
            None
        } else {
            Some(Seq::empty())
        },
    }
}

/// The array that a field freezes into.
pub open spec fn field_array(f: FieldState) -> ArrayDataView {
    ArrayDataView {
        data_type: f.data_type,
        len: f.slots,
        null_count: match f.validity {
            Some(v) => (f.slots - count_true(v)) as nat,
            None => 0,
        },
        offset: 0,
        buffers: seq![f.bytes],
        child_data: Seq::empty(),
        null_bitmap: match f.validity {
            Some(v) => Some(pack_bits(v, spec_max(1, spec_ceil8(f.slots)))),
            None => None,
        },
    }
}

/// Tracks one field of a union builder.
#[derive(Debug)]
struct FieldData {
    /// The name the field was made under
    name: String,
    /// The type id for this field
    type_id: i8,
    /// The data type represented in the `values_buffer`, which is untyped
    data_type: DataType,
    /// A buffer containing the values for this field in raw bytes
    values_buffer: MutableBuffer,
    /// The number of array slots represented by the buffer
    slots: usize,
    /// A builder for the bitmap if required (for sparse unions)
    bitmap_builder: Option<BooleanBufferBuilder>,
}

impl View for FieldData {
    type V = FieldState;

    closed spec fn view(&self) -> FieldState {
        FieldState {
            name: self.name@,
            type_id: self.type_id,
            data_type: self.data_type@,
            bytes: self.values_buffer@,
            slots: self.slots as nat,
            validity: match self.bitmap_builder {
                Some(b) => Some(b@),
                None => None,
            },
        }
    }
}

impl FieldData {
    /// The values are of a primitive type and fill the buffer, and the
    /// bitmap, if there is one, has a bit for every slot.
    closed spec fn wf(&self) -> bool {
        &&& primitive_width(self.data_type@) is Some
        &&& self.values_buffer.wf()
        &&& self.values_buffer@.len() == self.slots * field_width(self@)
        &&& self.slots <= MAX_SLOTS
        &&& match self.bitmap_builder {
            Some(b) => b.wf() && b.spec_len() == self.slots && b.bytes().len() == spec_max(
                1,
                spec_ceil8(self.slots as nat),
            ),
            None => true,
        }
    }

    /// Creates a new `FieldData`.
    fn new(
        name: String,
        type_id: i8,
        data_type: DataType,
        bitmap_builder: Option<BooleanBufferBuilder>,
    ) -> (r: Self)
        requires
            primitive_width(data_type@) is Some,
            match bitmap_builder {
                Some(b) => b.wf() && b.spec_len() == 0 && b.bytes().len() == 1,
                None => true,
            },
        ensures
            r.wf(),
            r@ == empty_field(name@, type_id, data_type@, bitmap_builder is None),
    {
        proof {
            assert(0 * field_width(
                empty_field(name@, type_id, data_type@, bitmap_builder is None),
            ) == 0) by (nonlinear_arith);
            if bitmap_builder is Some {
                assert(bitmap_builder->0@ =~= Seq::<bool>::empty());
            }
        }
        Self {
            name,
            type_id,
            data_type,
            values_buffer: MutableBuffer::new(1),
            slots: 0,
            bitmap_builder,
        }
    }

    /// Appends a single value to this `FieldData`'s `values_buffer`.
    fn append_to_values_buffer<T: ArrowPrimitiveType>(&mut self, v: T::Native)
        requires
            old(self).wf(),
            primitive_width(old(self)@.data_type) == Some(T::Native::byte_width()),
            old(self)@.slots < MAX_SLOTS,
        ensures
            final(self).wf(),
            final(self)@ == with_value(old(self)@, to_bytes(v)),
    {
        let mut values_buffer = MutableBuffer::new(0);
        std::mem::swap(&mut self.values_buffer, &mut values_buffer);
        let mut builder: BufferBuilder<T::Native> = mutable_buffer_to_builder(
            values_buffer,
            self.slots,
        );
        builder.append(v);
        proof {
            builder.lemma_wf();
        }
        let mutable_buffer = builder_to_mutable_buffer(builder);
        self.values_buffer = mutable_buffer;

        self.slots += 1;
        match &mut self.bitmap_builder {
            Some(b) => {
                b.append(true);
            },
            None => {},
        }
    }

    /// Appends a null to this `FieldData`, where it keeps its validity.
    fn append_null<T: ArrowPrimitiveType>(&mut self)
        requires
            old(self).wf(),
            primitive_width(old(self)@.data_type) == Some(T::Native::byte_width()),
            old(self)@.slots < MAX_SLOTS,
        ensures
            final(self).wf(),
            final(self)@ == with_null(old(self)@),
    {
        if self.bitmap_builder.is_some() {
            let mut values_buffer = MutableBuffer::new(0);
            std::mem::swap(&mut self.values_buffer, &mut values_buffer);
            let mut builder: BufferBuilder<T::Native> = mutable_buffer_to_builder(
                values_buffer,
                self.slots,
            );
            builder.advance(1);
            proof {
                builder.lemma_wf();
                assert(1 * T::Native::byte_width() == T::Native::byte_width()) by (nonlinear_arith);
            }
            let mutable_buffer = builder_to_mutable_buffer(builder);
            self.values_buffer = mutable_buffer;
            self.slots += 1;
            match &mut self.bitmap_builder {
                Some(b) => {
                    b.append(false);
                },
                None => {},
            }
        }
    }

    /// Appends a null to this `FieldData` when the type is not known at
    /// compile time: the declared type of the field tells the width.
    fn append_null_dynamic(&mut self)
        requires
            old(self).wf(),
            old(self)@.slots < MAX_SLOTS,
        ensures
            final(self).wf(),
            final(self)@ == with_null(old(self)@),
    {
        match self.data_type {
            DataType::Int8 => self.append_null::<Int8Type>(),
            DataType::Int16 => self.append_null::<Int16Type>(),
            DataType::Int32 | DataType::Date32 | DataType::Time32(_) | DataType::Interval(
                IntervalUnit::YearMonth,
            ) => self.append_null::<Int32Type>(),
            DataType::Int64 | DataType::Timestamp(_, _) | DataType::Date64 | DataType::Time64(_)
            | DataType::Interval(IntervalUnit::DayTime) | DataType::Duration(
                _,
            ) => self.append_null::<Int64Type>(),
            DataType::UInt8 => self.append_null::<UInt8Type>(),
            DataType::UInt16 => self.append_null::<UInt16Type>(),
            DataType::UInt32 => self.append_null::<UInt32Type>(),
            DataType::UInt64 => self.append_null::<UInt64Type>(),
            DataType::Float32 => self.append_null::<UInt32Type>(),
            DataType::Float64 => self.append_null::<UInt64Type>(),
            _ => {},
        }
    }
}

/// The type id of the field made at place `i`: `i` cut to 8 bits.
pub open spec fn nth_id(i: int) -> i8 {
    #[verifier::truncate]
    (i as i8)
}

/// The offset of the slot at place `i` of a field: `i` cut to 32 bits.
pub open spec fn nth_offset(i: int) -> i32 {
    #[verifier::truncate]
    (i as i32)
}

/// The place of the field named `name`, if there is one.
pub open spec fn field_index(fields: Seq<FieldState>, name: Seq<char>) -> Option<int> {
    if exists|i: int| 0 <= i < fields.len() && (#[trigger] fields[i]).name == name {
        Some(choose|i: int| 0 <= i < fields.len() && (#[trigger] fields[i]).name == name)
    } else {
        None
    }
}

/// The fields with one named `name` among them: where there is none yet, a
/// new one comes last, with the next type id and a null slot for every slot
/// of the union so far.
pub open spec fn with_field(
    fields: Seq<FieldState>,
    dense: bool,
    len: nat,
    name: Seq<char>,
    data_type: DataTypeView,
) -> Seq<FieldState> {
    match field_index(fields, name) {
        Some(_) => fields,
        None => fields.push(
            with_nulls(empty_field(name, nth_id(fields.len() as int), data_type, dense), len),
        ),
    }
}

/// The place of the field named `name` once there is one.
pub open spec fn place_of(fields: Seq<FieldState>, name: Seq<char>) -> int {
    match field_index(fields, name) {
        Some(k) => k,
        None => fields.len() as int,
    }
}

/// The fields after a value was appended under `name`: the field of that
/// name has the value, every other field a null slot where it keeps its
/// validity.
pub open spec fn appended_fields(
    fields: Seq<FieldState>,
    dense: bool,
    len: nat,
    name: Seq<char>,
    data_type: DataTypeView,
    value: Seq<u8>,
) -> Seq<FieldState> {
    let base = with_field(fields, dense, len, name, data_type);
    Seq::new(
        base.len(),
        |i: int|
            if i == place_of(fields, name) {
                with_value(base[i], value)
            } else {
                with_null(base[i])
            },
    )
}

/// The fields after a null was appended: every field has a null slot where
/// it keeps its validity.
pub open spec fn nulled_fields(fields: Seq<FieldState>) -> Seq<FieldState> {
    Seq::new(fields.len(), |i: int| with_null(fields[i]))
}

/// The type id that a value appended under `name` gets.
pub open spec fn appended_id(fields: Seq<FieldState>, name: Seq<char>) -> i8 {
    match field_index(fields, name) {
        Some(k) => fields[k].type_id,
        None => nth_id(fields.len() as int),
    }
}

/// The offset that a value appended under `name` gets in the dense layout:
/// the number of slots of its field before.
pub open spec fn appended_offset(fields: Seq<FieldState>, name: Seq<char>) -> i32 {
    match field_index(fields, name) {
        Some(k) => nth_offset(fields[k].slots as int),
        None => 0i32,
    }
}

/// The children of the union: for each field its type id, its declared
/// field, which is not nullable, and its array.
pub open spec fn children_of(fields: Seq<FieldState>) -> Seq<(i8, (FieldView, ArrayDataView))> {
    Seq::new(
        fields.len(),
        |i: int|
            (
                fields[i].type_id,
                (
                    FieldView {
                        name: fields[i].name,
                        data_type: fields[i].data_type,
                        nullable: false,
                    },
                    field_array(fields[i]),
                ),
            ),
    )
}

/// Where the names differ, the field of a name is the one at its place.
pub proof fn lemma_field_index(fields: Seq<FieldState>, name: Seq<char>, k: int)
    requires
        0 <= k < fields.len(),
        fields[k].name == name,
        forall|i: int, j: int|
            0 <= i < j < fields.len() ==> (#[trigger] fields[i]).name != (#[trigger] fields[j]).name,
    ensures
        field_index(fields, name) == Some(k),
{
    let c = choose|i: int| 0 <= i < fields.len() && (#[trigger] fields[i]).name == name;
    if c < k {
        assert(fields[c].name != fields[k].name);
    } else if k < c {
        assert(fields[k].name != fields[c].name);
    }
}

/// Null slots add up.
pub proof fn lemma_with_nulls(f: FieldState, n: nat)
    ensures
        f.validity is None ==> with_nulls(f, n) == f,
        f.validity is Some ==> with_nulls(f, n).slots == f.slots + n && with_nulls(
            f,
            n,
        ).validity is Some,
        with_nulls(f, n).name == f.name,
        with_nulls(f, n).type_id == f.type_id,
        with_nulls(f, n).data_type == f.data_type,
    decreases n,
{
    if n > 0 {
        lemma_with_nulls(f, (n - 1) as nat);
    }
}

/// Freezes a field into its type id, its declared field and its array.
fn freeze_field(fd: FieldData) -> (r: (i8, (Field, ArrayRef)))
    requires
        fd.wf(),
    ensures
        r.0 == fd@.type_id,
        r.1.0@ == (FieldView { name: fd@.name, data_type: fd@.data_type, nullable: false }),
        r.1.1@ == field_array(fd@),
{
    let FieldData { name, type_id, data_type, values_buffer, slots, bitmap_builder } = fd;
    let buffer = values_buffer.into_buffer();
    let arr_data_builder = crate::array_data::ArrayDataBuilder::new(
        crate::datatypes::clone_data_type(&data_type),
    ).add_buffer(buffer).len(slots);
    let arr_data_ref = match bitmap_builder {
        Some(bb) => {
            let mut bb = bb;
            proof {
                bb.lemma_wf();
                crate::array::lemma_count_nulls_held(bb.bytes(), bb@);
            }
            arr_data_builder.null_bit_buffer(bb.finish()).build()
        },
        None => arr_data_builder.build(),
    };
    proof {
        assert(arr_data_ref@.buffers =~= seq![fd@.bytes]);
    }
    let array_ref = crate::array::make_array(arr_data_ref);
    (type_id, (Field::new(name.as_str(), data_type, false), array_ref))
}

/// Freezes the fields, in their order.
fn freeze_fields(fields: Vec<FieldData>) -> (r: Vec<(i8, (Field, ArrayRef))>)
    requires
        forall|i: int| 0 <= i < fields@.len() ==> (#[trigger] fields@[i]).wf(),
    ensures
        r@.len() == fields@.len(),
        forall|i: int|
            0 <= i < fields@.len() ==> (#[trigger] r@[i]).0 == fields@[i]@.type_id && r@[i].1.0@
                == (FieldView {
                name: fields@[i]@.name,
                data_type: fields@[i]@.data_type,
                nullable: false,
            }) && r@[i].1.1@ == field_array(fields@[i]@),
{
    let n: usize = fields.len();
    let mut rest = reversed(fields);
    let mut children: Vec<(i8, (Field, ArrayRef))> = Vec::new();
    let mut i: usize = 0;
    while i < n
        invariant
            i <= n,
            n == fields@.len(),
            rest@ == fields@.reverse().take(n - i),
            children@.len() == i,
            forall|k: int| 0 <= k < n ==> (#[trigger] fields@[k]).wf(),
            forall|k: int|
                0 <= k < i ==> (#[trigger] children@[k]).0 == fields@[k]@.type_id
                    && children@[k].1.0@ == (FieldView {
                    name: fields@[k]@.name,
                    data_type: fields@[k]@.data_type,
                    nullable: false,
                }) && children@[k].1.1@ == field_array(fields@[k]@),
        decreases n - i,
    {
        match rest.pop() {
            Some(fd) => {
                proof {
                    assert(fd == fields@[i as int]);
                }
                children.push(freeze_field(fd));
            },
            None => {},
        }
        i = i + 1;
        proof {
            assert(rest@ =~= fields@.reverse().take(n - i));
        }
    }
    children
}

/// Drops the type ids of the children.
fn strip_ids(children: Vec<(i8, (Field, ArrayRef))>) -> (r: Vec<(Field, ArrayRef)>)
    ensures
        r@.len() == children@.len(),
        forall|i: int| 0 <= i < r@.len() ==> #[trigger] r@[i] == children@[i].1,
{
    let n: usize = children.len();
    let mut rest = reversed(children);
    let mut out: Vec<(Field, ArrayRef)> = Vec::new();
    let mut i: usize = 0;
    while i < n
        invariant
            i <= n,
            n == children@.len(),
            rest@ == children@.reverse().take(n - i),
            out@.len() == i,
            forall|k: int| 0 <= k < i ==> #[trigger] out@[k] == children@[k].1,
        decreases n - i,
    {
        match rest.pop() {
            Some(x) => {
                proof {
                    assert(x == children@[i as int]);
                }
                out.push(x.1);
            },
            None => {},
        }
        i = i + 1;
        proof {
            assert(rest@ =~= children@.reverse().take(n - i));
        }
    }
    out
}

/// What each field of `fields` holds.
spec fn states_of(fields: Seq<FieldData>) -> Seq<FieldState> {
    Seq::new(fields.len(), |i: int| fields[i]@)
}

/// Whether each field of `fields` is well-formed.
spec fn all_wf(fields: Seq<FieldData>) -> bool {
    forall|i: int| 0 <= i < fields.len() ==> (#[trigger] fields[i]).wf()
}

/// Whether the fields are those of a union of `len` slots: the type ids
/// follow the order in which the fields were made, no two fields have one
/// name, a field keeps its validity in the sparse layout only, and has a
/// slot for every slot of the union there; in the dense layout it has no
/// more slots than the union.
#[verifier::opaque]
pub open spec fn states_ok(states: Seq<FieldState>, dense: bool, len: nat) -> bool {
    &&& forall|i: int| 0 <= i < states.len() ==> (#[trigger] states[i]).type_id == nth_id(i)
    &&& forall|i: int, j: int|
        0 <= i < j < states.len() ==> (#[trigger] states[i]).name != (#[trigger] states[j]).name
    &&& forall|i: int| 0 <= i < states.len() ==> ((#[trigger] states[i]).validity is None) == dense
    &&& forall|i: int| 0 <= i < states.len() ==> (#[trigger] states[i]).slots <= len
    &&& !dense ==> forall|i: int| 0 <= i < states.len() ==> (#[trigger] states[i]).slots == len
    &&& forall|i: int|
        0 <= i < states.len() ==> primitive_width((#[trigger] states[i]).data_type) is Some
}

/// The fields after a value was appended to the one at `k`: that field has
/// the value, every other field a null slot where it keeps its validity.
pub open spec fn touched(states: Seq<FieldState>, k: int, value: Seq<u8>) -> Seq<FieldState> {
    Seq::new(
        states.len(),
        |i: int|
            if i == k {
                with_value(states[i], value)
            } else {
                with_null(states[i])
            },
    )
}

/// Fields of a union stay fields of a union, one slot longer, when a value
/// is appended to one of them.
proof fn lemma_touched_ok(states: Seq<FieldState>, dense: bool, len: nat, k: int, value: Seq<u8>)
    requires
        states_ok(states, dense, len),
        0 <= k < states.len(),
    ensures
        states_ok(touched(states, k, value), dense, len + 1),
{
    reveal(states_ok);
    let next = touched(states, k, value);
    assert forall|i: int, j: int| 0 <= i < j < next.len() implies (#[trigger] next[i]).name != (
    #[trigger] next[j]).name by {
        assert(states[i].name != states[j].name);
    }
    assert forall|i: int| 0 <= i < next.len() implies (#[trigger] next[i]).slots <= len + 1 by {
        assert(states[i].slots <= len);
    }
    if !dense {
        assert forall|i: int| 0 <= i < next.len() implies (#[trigger] next[i]).slots == len + 1 by {
            assert(states[i].slots == len);
            assert(states[i].validity is Some);
        }
    }
    assert forall|i: int| 0 <= i < next.len() implies ((#[trigger] next[i]).validity is None)
        == dense by {
        assert((states[i].validity is None) == dense);
    }
    assert forall|i: int| 0 <= i < next.len() implies (#[trigger] next[i]).type_id == nth_id(
        i,
    ) by {
        assert(states[i].type_id == nth_id(i));
    }
    assert forall|i: int| 0 <= i < next.len() implies primitive_width(
        (#[trigger] next[i]).data_type,
    ) is Some by {
        assert(primitive_width(states[i].data_type) is Some);
    }
}

/// Fields of a union stay fields of a union, one slot longer, when a null
/// is appended to the union.
proof fn lemma_nulled_ok(states: Seq<FieldState>, dense: bool, len: nat)
    requires
        states_ok(states, dense, len),
    ensures
        states_ok(nulled_fields(states), dense, len + 1),
        dense ==> nulled_fields(states) == states,
{
    reveal(states_ok);
    let next = nulled_fields(states);
    assert forall|i: int, j: int| 0 <= i < j < next.len() implies (#[trigger] next[i]).name != (
    #[trigger] next[j]).name by {
        assert(states[i].name != states[j].name);
    }
    assert forall|i: int| 0 <= i < next.len() implies (#[trigger] next[i]).slots <= len + 1 by {
        assert(states[i].slots <= len);
    }
    if !dense {
        assert forall|i: int| 0 <= i < next.len() implies (#[trigger] next[i]).slots == len + 1 by {
            assert(states[i].slots == len);
            assert(states[i].validity is Some);
        }
    } else {
        assert forall|i: int| 0 <= i < next.len() implies #[trigger] next[i] == states[i] by {
            assert(states[i].validity is None);
        }
        assert(next =~= states);
    }
    assert forall|i: int| 0 <= i < next.len() implies ((#[trigger] next[i]).validity is None)
        == dense by {
        assert((states[i].validity is None) == dense);
    }
    assert forall|i: int| 0 <= i < next.len() implies (#[trigger] next[i]).type_id == nth_id(
        i,
    ) by {
        assert(states[i].type_id == nth_id(i));
    }
    assert forall|i: int| 0 <= i < next.len() implies primitive_width(
        (#[trigger] next[i]).data_type,
    ) is Some by {
        assert(primitive_width(states[i].data_type) is Some);
    }
}

/// Fields of a union stay fields of a union when a field of a new name is
/// made after them.
proof fn lemma_pushed_ok(
    states: Seq<FieldState>,
    dense: bool,
    len: nat,
    name: Seq<char>,
    data_type: DataTypeView,
)
    requires
        states_ok(states, dense, len),
        field_index(states, name) is None,
        primitive_width(data_type) is Some,
    ensures
        states_ok(
            states.push(
                with_nulls(empty_field(name, nth_id(states.len() as int), data_type, dense), len),
            ),
            dense,
            len,
        ),
{
    reveal(states_ok);
    let made = with_nulls(empty_field(name, nth_id(states.len() as int), data_type, dense), len);
    lemma_with_nulls(empty_field(name, nth_id(states.len() as int), data_type, dense), len);
    let next = states.push(made);
    assert forall|i: int, j: int| 0 <= i < j < next.len() implies (#[trigger] next[i]).name != (
    #[trigger] next[j]).name by {
        if j < states.len() {
            assert(states[i].name != states[j].name);
        } else {
            assert(states[i].name != name);
        }
    }
    assert forall|i: int| 0 <= i < next.len() implies (#[trigger] next[i]).slots <= len by {
        if i < states.len() {
            assert(states[i].slots <= len);
        }
    }
    if !dense {
        assert forall|i: int| 0 <= i < next.len() implies (#[trigger] next[i]).slots == len by {
            if i < states.len() {
                assert(states[i].slots == len);
            }
        }
    }
    assert forall|i: int| 0 <= i < next.len() implies ((#[trigger] next[i]).validity is None)
        == dense by {
        if i < states.len() {
            assert((states[i].validity is None) == dense);
        }
    }
    assert forall|i: int| 0 <= i < next.len() implies (#[trigger] next[i]).type_id == nth_id(
        i,
    ) by {
        if i < states.len() {
            assert(states[i].type_id == nth_id(i));
        }
    }
    assert forall|i: int| 0 <= i < next.len() implies primitive_width(
        (#[trigger] next[i]).data_type,
    ) is Some by {
        if i < states.len() {
            assert(primitive_width(states[i].data_type) is Some);
        }
    }
}

/// Gives every field but the one at `skip` a null slot, where it keeps its
/// validity.
fn null_others(fields: &mut Vec<FieldData>, skip: usize)
    requires
        all_wf(old(fields)@),
        forall|i: int|
            0 <= i < old(fields)@.len() ==> (#[trigger] old(fields)@[i])@.slots < MAX_SLOTS,
    ensures
        final(fields)@.len() == old(fields)@.len(),
        all_wf(final(fields)@),
        forall|i: int|
            0 <= i < final(fields)@.len() && i != skip ==> (#[trigger] final(fields)@[i])@
                == with_null(old(fields)@[i]@),
        skip < final(fields)@.len() ==> final(fields)@[skip as int] == old(fields)@[skip as int],
{
    let n: usize = fields.len();
    let mut i: usize = 0;
    while i < n
        invariant
            i <= n,
            n == old(fields)@.len(),
            fields@.len() == n,
            forall|k: int| 0 <= k < n ==> (#[trigger] fields@[k]).wf(),
            forall|k: int|
                0 <= k < i && k != skip ==> (#[trigger] fields@[k])@ == with_null(
                    old(fields)@[k]@,
                ),
            forall|k: int| i <= k < n ==> (#[trigger] fields@[k]) == old(fields)@[k],
            skip < i ==> fields@[skip as int] == old(fields)@[skip as int],
            forall|k: int| 0 <= k < n ==> (#[trigger] old(fields)@[k])@.slots < MAX_SLOTS,
        decreases n - i,
    {
        if i != skip {
            fields[i].append_null_dynamic();
        }
        i = i + 1;
    }
}

/// Appends a value to the field at `k` and, in the sparse layout, a null to
/// every other field.
fn touch_fields<T: ArrowPrimitiveType>(
    fields: &mut Vec<FieldData>,
    k: usize,
    v: T::Native,
    dense: bool,
    Ghost(len): Ghost<nat>,
)
    requires
        all_wf(old(fields)@),
        states_ok(states_of(old(fields)@), dense, len),
        len < MAX_SLOTS,
        k < old(fields)@.len(),
        field_width(states_of(old(fields)@)[k as int]) == T::Native::byte_width(),
    ensures
        final(fields)@.len() == old(fields)@.len(),
        all_wf(final(fields)@),
        states_of(final(fields)@) == touched(states_of(old(fields)@), k as int, to_bytes(v)),
        states_ok(states_of(final(fields)@), dense, len + 1),
{
    proof {
        reveal(states_ok);
        lemma_touched_ok(states_of(fields@), dense, len, k as int, to_bytes(v));
        assert forall|i: int| 0 <= i < fields@.len() implies (#[trigger] fields@[i])@.slots
            < MAX_SLOTS by {
            assert(states_of(fields@)[i].slots <= len);
        }
        assert(primitive_width(states_of(fields@)[k as int].data_type) is Some);
        assert(states_of(fields@)[k as int] == fields@[k as int]@);
    }
    if !dense {
        null_others(fields, k);
    }
    fields[k].append_to_values_buffer::<T>(v);
    proof {
        assert forall|i: int| 0 <= i < fields@.len() implies #[trigger] states_of(fields@)[i]
            == touched(states_of(old(fields)@), k as int, to_bytes(v))[i] by {
            if i != k {
                assert((states_of(old(fields)@)[i].validity is None) == dense);
                if !dense {
                    assert(fields@[i]@ == with_null(old(fields)@[i]@));
                }
            }
        }
        assert(states_of(fields@) =~= touched(states_of(old(fields)@), k as int, to_bytes(v)));
    }
}

/// Appends a null to every field, in the sparse layout.
fn null_fields(fields: &mut Vec<FieldData>, dense: bool, Ghost(len): Ghost<nat>)
    requires
        all_wf(old(fields)@),
        states_ok(states_of(old(fields)@), dense, len),
        len < MAX_SLOTS,
    ensures
        final(fields)@.len() == old(fields)@.len(),
        all_wf(final(fields)@),
        states_of(final(fields)@) == nulled_fields(states_of(old(fields)@)),
        states_ok(states_of(final(fields)@), dense, len + 1),
{
    proof {
        reveal(states_ok);
        lemma_nulled_ok(states_of(fields@), dense, len);
        assert forall|i: int| 0 <= i < fields@.len() implies (#[trigger] fields@[i])@.slots
            < MAX_SLOTS by {
            assert(states_of(fields@)[i].slots <= len);
        }
    }
    let n: usize = fields.len();
    if !dense {
        null_others(fields, usize::MAX);
        proof {
            assert(fields@.len() == n);
            assert forall|i: int| 0 <= i < fields@.len() implies #[trigger] states_of(fields@)[i]
                == nulled_fields(states_of(old(fields)@))[i] by {
                assert(fields@[i]@ == with_null(old(fields)@[i]@));
            }
            assert(states_of(fields@) =~= nulled_fields(states_of(old(fields)@)));
        }
    }
}

/// The place of the field named `name`, if there is one.
fn find_field(fields: &Vec<FieldData>, name: &String) -> (r: Option<usize>)
    ensures
        match r {
            Some(k) => k < fields@.len() && states_of(fields@)[k as int].name == name@,
            None => forall|i: int|
                0 <= i < fields@.len() ==> (#[trigger] states_of(fields@)[i]).name != name@,
        },
{
    let mut i: usize = 0;
    while i < fields.len()
        invariant
            i <= fields@.len(),
            forall|k: int| 0 <= k < i ==> (#[trigger] states_of(fields@)[k]).name != name@,
        decreases fields@.len() - i,
    {
        if fields[i].name == *name {
            return Some(i);
        }
        i = i + 1;
    }
    None
}

/// Makes the field named `name`, of the declared type of `T`, with the next
/// type id and, in the sparse layout, a null slot for every slot of the
/// union so far.
fn add_field<T: ArrowPrimitiveType>(
    fields: &mut Vec<FieldData>,
    name: String,
    dense: bool,
    len: usize,
) -> (k: usize)
    requires
        all_wf(old(fields)@),
        states_ok(states_of(old(fields)@), dense, len as nat),
        field_index(states_of(old(fields)@), name@) is None,
        len <= MAX_SLOTS,
    ensures
        k == old(fields)@.len(),
        final(fields)@.len() == k + 1,
        all_wf(final(fields)@),
        states_of(final(fields)@) == states_of(old(fields)@).push(
            with_nulls(
                empty_field(name@, nth_id(k as int), T::spec_data_type(), dense),
                len as nat,
            ),
        ),
        states_ok(states_of(final(fields)@), dense, len as nat),
{
    proof {
        T::lemma_width();
        lemma_pushed_ok(states_of(fields@), dense, len as nat, name@, T::spec_data_type());
    }
    let k: usize = fields.len();
    let type_id: i8 = #[verifier::truncate]
    (k as i8);
    let ghost empty = empty_field(name@, nth_id(k as int), T::spec_data_type(), dense);
    let fd = if dense {
        FieldData::new(name, type_id, T::data_type(), None)
    } else {
        let mut fd = FieldData::new(name, type_id, T::data_type(), Some(BooleanBufferBuilder::new(1)));
        let mut i: usize = 0;
        while i < len
            invariant
                i <= len,
                len <= MAX_SLOTS,
                fd.wf(),
                fd@ == with_nulls(empty, i as nat),
                empty == empty_field(name@, nth_id(k as int), T::spec_data_type(), dense),
                !dense,
                primitive_width(T::spec_data_type()) == Some(T::Native::byte_width()),
            decreases len - i,
        {
            proof {
                lemma_with_nulls(empty, i as nat);
            }
            fd.append_null::<T>();
            i = i + 1;
        }
        fd
    };
    proof {
        lemma_with_nulls(empty, len as nat);
    }
    fields.push(fd);
    proof {
        assert(states_of(fields@) =~= states_of(old(fields)@).push(with_nulls(empty, len as nat)));
    }
    k
}

/// Builder type for tagged unions.
#[derive(Debug)]
pub struct UnionBuilder {
    /// The current number of slots in the array
    len: usize,
    /// The fields, in the order in which they were made
    fields: Vec<FieldData>,
    /// Builder to keep track of type ids
    type_id_builder: BufferBuilder<i8>,
    /// Builder to keep track of offsets (`None` for sparse unions)
    value_offset_builder: Option<BufferBuilder<i32>>,
    /// Optional builder for null slots
    bitmap_builder: Option<BooleanBufferBuilder>,
}

/// The validity of `len` slots as it is once it is kept: what was kept
/// before, or every slot valid.
pub open spec fn kept_validity(validity: Option<Seq<bool>>, len: nat) -> Seq<bool> {
    match validity {
        Some(v) => v,
        None => repeat(true, len),
    }
}

/// The bytes of the frozen bitmap of `len` slots, if the validity is kept.
pub open spec fn frozen_bitmap(validity: Option<Seq<bool>>, len: nat) -> Option<Seq<u8>> {
    match validity {
        Some(v) => Some(pack_bits(v, spec_ceil8(len))),
        None => None,
    }
}

/// The bytes of the frozen offsets, in the dense layout.
pub open spec fn frozen_offsets(value_offsets: Option<Seq<i32>>) -> Option<Seq<u8>> {
    match value_offsets {
        Some(o) => Some(crate::native::encode_all(o)),
        None => None,
    }
}

/// The declared fields of the children, in their order.
pub open spec fn fields_of(children: Seq<(i8, (FieldView, ArrayDataView))>) -> Seq<FieldView> {
    Seq::new(children.len(), |i: int| children[i].1.0)
}

/// The arrays of the children, in their order.
pub open spec fn arrays_of(children: Seq<(i8, (FieldView, ArrayDataView))>) -> Seq<
    ArrayDataView,
> {
    Seq::new(children.len(), |i: int| children[i].1.1)
}

impl UnionBuilder {
    /// The number of slots appended.
    pub closed spec fn spec_len(&self) -> nat {
        self.len as nat
    }

    /// Whether the builder is in the dense layout.
    pub closed spec fn is_dense(&self) -> bool {
        self.value_offset_builder is Some
    }

    /// The type id of each slot; zero for a null slot.
    pub closed spec fn type_ids(&self) -> Seq<i8> {
        self.type_id_builder@
    }

    /// In the dense layout, for each slot that is not null its place in its
    /// field.
    pub closed spec fn value_offsets(&self) -> Option<Seq<i32>> {
        match self.value_offset_builder {
            Some(b) => Some(b@),
            None => None,
        }
    }

    /// Which slots hold a value: kept once a null was appended.
    pub closed spec fn validity(&self) -> Option<Seq<bool>> {
        match self.bitmap_builder {
            Some(b) => Some(b@),
            None => None,
        }
    }

    /// The fields, in the order in which they were made.
    pub closed spec fn fields(&self) -> Seq<FieldState> {
        states_of(self.fields@)
    }

    /// The number of null slots.
    pub open spec fn null_count(&self) -> nat {
        match self.validity() {
            Some(v) => (self.spec_len() - count_true(v)) as nat,
            None => 0,
        }
    }

    /// The parts other than the fields agree with each other.
    closed spec fn frame_wf(&self) -> bool {
        &&& self.type_id_builder.wf()
        &&& self.type_id_builder.spec_len() == self.len
        &&& self.len <= MAX_SLOTS
        &&& match self.value_offset_builder {
            Some(b) => b.wf() && b.spec_len() + self.null_count() == self.len,
            None => true,
        }
        &&& match self.bitmap_builder {
            Some(b) => b.wf() && b.spec_len() == self.len && b.bytes().len() == spec_ceil8(
                self.len as nat,
            ),
            None => true,
        }
        &&& self.fields@.len() <= 128 ==> forall|i: int|
            0 <= i < self.type_id_builder@.len() ==> #[trigger] self.type_id_builder@[i] >= 0
        &&& match self.value_offset_builder {
            Some(b) => self.len <= i32::MAX ==> forall|i: int|
                0 <= i < b@.len() ==> 0 <= #[trigger] b@[i] <= self.len,
            None => true,
        }
    }

    /// The parts agree with each other.
    pub closed spec fn wf(&self) -> bool {
        &&& self.frame_wf()
        &&& all_wf(self.fields@)
        &&& states_ok(self.fields(), self.is_dense(), self.spec_len())
    }

    /// What well-formedness says of the public state.
    pub proof fn lemma_wf(&self)
        requires
            self.wf(),
        ensures
            self.type_ids().len() == self.spec_len(),
            self.spec_len() <= MAX_SLOTS,
            match self.validity() {
                Some(v) => v.len() == self.spec_len(),
                None => true,
            },
            match self.value_offsets() {
                Some(o) => o.len() + self.null_count() == self.spec_len(),
                None => true,
            },
            states_ok(self.fields(), self.is_dense(), self.spec_len()),
    {
        self.type_id_builder.lemma_wf();
        match self.bitmap_builder {
            Some(b) => {
                b.lemma_wf();
            },
            None => {},
        }
        match self.value_offset_builder {
            Some(b) => {
                b.lemma_wf();
            },
            None => {},
        }
    }

    /// Creates a new dense array builder.
    pub fn new_dense(capacity: usize) -> (r: Self)
        requires
            capacity <= MAX_SLOTS,
        ensures
            r.wf(),
            r.is_dense(),
            r.spec_len() == 0,
            r.type_ids() == Seq::<i8>::empty(),
            r.value_offsets() == Some(Seq::<i32>::empty()),
            r.validity() == None::<Seq<bool>>,
            r.fields() == Seq::<FieldState>::empty(),
    {
        let r = Self {
            len: 0,
            fields: Vec::new(),
            type_id_builder: BufferBuilder::<i8>::new(capacity),
            value_offset_builder: Some(BufferBuilder::<i32>::new(capacity)),
            bitmap_builder: None,
        };
        proof {
            reveal(states_ok);
            assert(r.fields() =~= Seq::<FieldState>::empty());
        }
        r
    }

    /// Creates a new sparse array builder.
    pub fn new_sparse(capacity: usize) -> (r: Self)
        requires
            capacity <= MAX_SLOTS,
        ensures
            r.wf(),
            !r.is_dense(),
            r.spec_len() == 0,
            r.type_ids() == Seq::<i8>::empty(),
            r.value_offsets() == None::<Seq<i32>>,
            r.validity() == None::<Seq<bool>>,
            r.fields() == Seq::<FieldState>::empty(),
    {
        let r = Self {
            len: 0,
            fields: Vec::new(),
            type_id_builder: BufferBuilder::<i8>::new(capacity),
            value_offset_builder: None,
            bitmap_builder: None,
        };
        proof {
            reveal(states_ok);
            assert(r.fields() =~= Seq::<FieldState>::empty());
        }
        r
    }

    /// Appends a null to this builder: in the sparse layout every field
    /// gets a null slot.
    pub fn append_null(&mut self) -> (r: Result<(), ArrowError>)
        requires
            old(self).wf(),
            old(self).spec_len() < MAX_SLOTS,
        ensures
            r is Ok,
            final(self).wf(),
            final(self).spec_len() == old(self).spec_len() + 1,
            final(self).is_dense() == old(self).is_dense(),
            final(self).type_ids() == old(self).type_ids().push(0i8),
            final(self).value_offsets() == old(self).value_offsets(),
            final(self).validity() == Some(
                kept_validity(old(self).validity(), old(self).spec_len()).push(false),
            ),
            final(self).fields() == nulled_fields(old(self).fields()),
    {
        proof {
            old(self).lemma_wf();
            crate::bit_util::lemma_count_true_push(
                kept_validity(old(self).validity(), old(self).spec_len()),
                false,
            );
            crate::bit_util::lemma_count_true_all(repeat(true, old(self).spec_len()));
            crate::bit_util::lemma_count_true_bounds(
                kept_validity(old(self).validity(), old(self).spec_len()),
            );
        }
        if self.bitmap_builder.is_none() {
            self.bitmap_builder = Some(valid_so_far(self.len));
        }
        match &mut self.bitmap_builder {
            Some(b) => {
                b.append(false);
            },
            None => {},
        }
        self.type_id_builder.append(0i8);

        // Handle sparse union
        let dense = self.value_offset_builder.is_some();
        null_fields(&mut self.fields, dense, Ghost(self.len as nat));
        self.len += 1;
        proof {
            let ids = self.type_id_builder@;
            if self.fields@.len() <= 128 {
                assert forall|i: int| 0 <= i < ids.len() implies #[trigger] ids[i] >= 0 by {
                    if i < ids.len() - 1 {
                        assert(old(self).type_id_builder@[i] >= 0);
                    }
                }
            }
            assert(spec_ceil8(self.len as nat) >= spec_ceil8((self.len - 1) as nat));
        }
        Ok(())
    }

    /// Appends a value to this builder, under the field named `field_name`:
    /// the field is made if there is none of that name. A field that is
    /// there must hold values as wide as those of `T`.
    pub fn append<T: ArrowPrimitiveType>(&mut self, field_name: &str, v: T::Native) -> (r: Result<
        (),
        ArrowError,
    >)
        requires
            old(self).wf(),
            old(self).spec_len() < MAX_SLOTS,
            match field_index(old(self).fields(), field_name@) {
                Some(k) => field_width(old(self).fields()[k]) == T::Native::byte_width(),
                None => true,
            },
        ensures
            r is Ok,
            final(self).wf(),
            final(self).spec_len() == old(self).spec_len() + 1,
            final(self).is_dense() == old(self).is_dense(),
            final(self).type_ids() == old(self).type_ids().push(
                appended_id(old(self).fields(), field_name@),
            ),
            final(self).value_offsets() == match old(self).value_offsets() {
                Some(o) => Some(o.push(appended_offset(old(self).fields(), field_name@))),
                None => None,
            },
            final(self).validity() == match old(self).validity() {
                Some(v) => Some(v.push(true)),
                None => None,
            },
            final(self).fields() == appended_fields(
                old(self).fields(),
                old(self).is_dense(),
                old(self).spec_len(),
                field_name@,
                T::spec_data_type(),
                to_bytes(v),
            ),
    {
        let name = field_name.to_owned();
        let dense = self.value_offset_builder.is_some();
        let k: usize = self.place::<T>(name);
        let type_id: i8 = self.fields[k].type_id;
        let slots: usize = self.fields[k].slots;
        proof {
            reveal(states_ok);
            assert(self.fields()[k as int] == self.fields@[k as int]@);
            assert(self.fields()[k as int].type_id == nth_id(k as int));
            assert(self.fields()[k as int].slots <= self.len);
            self.type_id_builder.lemma_wf();
        }
        self.type_id_builder.append(type_id);
        match &mut self.value_offset_builder {
            // Dense Union
            Some(offset_builder) => {
                let offset: i32 = #[verifier::truncate]
                (slots as i32);
                proof {
                    offset_builder.lemma_wf();
                }
                offset_builder.append(offset);
            },
            // Sparse Union
            None => {},
        }
        touch_fields::<T>(&mut self.fields, k, v, dense, Ghost(self.len as nat));
        // Update the bitmap builder if it exists
        match &mut self.bitmap_builder {
            Some(b) => {
                proof {
                    b.lemma_wf();
                    crate::bit_util::lemma_count_true_push(b@, true);
                    crate::bit_util::lemma_count_true_bounds(b@);
                }
                b.append(true);
            },
            None => {},
        }
        self.len += 1;
        proof {
            let ids = self.type_id_builder@;
            if self.fields@.len() <= 128 {
                assert(nth_id(k as int) == k);
                assert forall|i: int| 0 <= i < ids.len() implies #[trigger] ids[i] >= 0 by {
                    if i < ids.len() - 1 {
                        assert(old(self).type_id_builder@[i] >= 0);
                    }
                }
            }
            assert(spec_ceil8(self.len as nat) >= spec_ceil8((self.len - 1) as nat));
            if self.value_offset_builder is Some && self.len <= i32::MAX {
                let b = self.value_offset_builder->0;
                assert(nth_offset(slots as int) == slots);
                assert forall|i: int| 0 <= i < b@.len() implies 0 <= #[trigger] b@[i]
                    <= self.len by {
                    if i < b@.len() - 1 {
                        assert(old(self).value_offset_builder->0@[i] == b@[i]);
                    }
                }
            }
        }
        Ok(())
    }

    /// The place of the field named `name`, which is made if there is none
    /// of that name.
    fn place<T: ArrowPrimitiveType>(&mut self, name: String) -> (k: usize)
        requires
            old(self).wf(),
            match field_index(old(self).fields(), name@) {
                Some(k) => field_width(old(self).fields()[k]) == T::Native::byte_width(),
                None => true,
            },
        ensures
            final(self).wf(),
            k == place_of(old(self).fields(), name@),
            k < final(self).fields@.len(),
            final(self).fields() == with_field(
                old(self).fields(),
                old(self).is_dense(),
                old(self).spec_len(),
                name@,
                T::spec_data_type(),
            ),
            final(self).fields()[k as int].type_id == appended_id(old(self).fields(), name@),
            final(self).is_dense() ==> nth_offset(final(self).fields()[k as int].slots as int)
                == appended_offset(old(self).fields(), name@),
            field_width(final(self).fields()[k as int]) == T::Native::byte_width(),
            final(self).len == old(self).len,
            final(self).type_id_builder == old(self).type_id_builder,
            final(self).value_offset_builder == old(self).value_offset_builder,
            final(self).bitmap_builder == old(self).bitmap_builder,
    {
        let dense = self.value_offset_builder.is_some();
        match find_field(&self.fields, &name) {
            Some(k) => {
                proof {
                    reveal(states_ok);
                    lemma_field_index(self.fields(), name@, k as int);
                }
                k
            },
            None => {
                proof {
                    reveal(states_ok);
                    T::lemma_width();
                    if field_index(self.fields(), name@) is Some {
                        let c = field_index(self.fields(), name@)->0;
                        assert(self.fields()[c].name != name@);
                    }
                    lemma_with_nulls(
                        empty_field(
                            name@,
                            nth_id(self.fields@.len() as int),
                            T::spec_data_type(),
                            dense,
                        ),
                        self.len as nat,
                    );
                    assert(nth_offset(0) == 0i32) by (bit_vector);
                }
                add_field::<T>(&mut self.fields, name, dense, self.len)
            },
        }
    }
}

impl UnionBuilder {
    /// With at most 128 fields and no more slots than a 32-bit offset can
    /// count, the parts make up a union.
    pub proof fn lemma_consistent(&self)
        requires
            self.wf(),
            self.fields().len() <= 128,
            self.spec_len() <= i32::MAX,
        ensures
            union_consistent(
                crate::native::encode_all(self.type_ids()),
                frozen_offsets(self.value_offsets()),
                frozen_bitmap(self.validity(), self.spec_len()),
            ),
    {
        self.lemma_wf();
        let ids = crate::native::encode_all(self.type_ids());
        crate::native::lemma_encode_len(self.type_ids());
        crate::native::lemma_decode_encode(self.type_ids());
        assert forall|i: int| 0 <= i < ids.len() implies #[trigger] crate::native::decode_all::<i8>(
            ids,
        )[i] >= 0 by {
            assert(self.type_id_builder@[i] >= 0);
        }
        match self.validity() {
            Some(v) => {
                crate::bit_util::lemma_pack_bits(v, spec_ceil8(self.spec_len()));
                crate::array::lemma_count_nulls_held(
                    pack_bits(v, spec_ceil8(self.spec_len())),
                    v,
                );
            },
            None => {},
        }
        match self.value_offsets() {
            Some(o) => {
                crate::native::lemma_encode_len(o);
                crate::native::lemma_decode_encode(o);
                let b = crate::native::encode_all(o);
                assert forall|i: int|
                    0 <= i < crate::native::decode_all::<i32>(b).len() implies 0
                    <= #[trigger] crate::native::decode_all::<i32>(b)[i] <= max_offset(
                    ids.len(),
                ) by {
                    assert(0 <= self.value_offset_builder->0@[i] <= self.len);
                }
            },
            None => {},
        }
    }

    /// Builds this builder creating a new union array: every field freezes
    /// into a child, and the children come in the order of their type ids.
    /// The parts must make up a union; they do where there are at most 128
    /// fields and no more slots than a 32-bit offset can count.
    pub fn build(self) -> (r: Result<UnionArray, ArrowError>)
        requires
            self.wf(),
        ensures
            r is Ok <==> union_consistent(
                crate::native::encode_all(self.type_ids()),
                frozen_offsets(self.value_offsets()),
                frozen_bitmap(self.validity(), self.spec_len()),
            ),
            r is Err ==> r->Err_0 is InvalidArgumentError,
            r is Ok ==> r->Ok_0.wf() && r->Ok_0@ == union_data(
                crate::native::encode_all(self.type_ids()),
                frozen_offsets(self.value_offsets()),
                fields_of(sort_by_id(children_of(self.fields()))),
                arrays_of(sort_by_id(children_of(self.fields()))),
                frozen_bitmap(self.validity(), self.spec_len()),
            ),
            self.fields().len() <= 128 && self.spec_len() <= i32::MAX ==> r is Ok,
            sorted_by_id(sort_by_id(children_of(self.fields()))),
    {
        proof {
            self.lemma_wf();
            if self.fields().len() <= 128 && self.spec_len() <= i32::MAX {
                self.lemma_consistent();
            }
            lemma_sort_by_id(children_of(self.fields()));
            self.type_id_builder.lemma_wf();
            crate::native::lemma_encode_len(self.type_ids());
        }
        let ghost states = self.fields();
        let UnionBuilder { len, fields, type_id_builder, value_offset_builder, bitmap_builder } =
            self;
        let mut type_id_builder = type_id_builder;
        let type_id_buffer = type_id_builder.finish();
        let value_offsets_buffer = match value_offset_builder {
            Some(b) => {
                let mut b = b;
                Some(b.finish())
            },
            None => None,
        };
        let children = sorted_children(fields);
        let bitmap = match bitmap_builder {
            Some(b) => {
                let mut b = b;
                proof {
                    b.lemma_wf();
                }
                Some(b.finish())
            },
            None => None,
        };
        UnionArray::try_new(type_id_buffer, value_offsets_buffer, children, bitmap)
    }
}

/// Freezes the fields into the children of the union, in the order of their
/// type ids.
fn sorted_children(fields: Vec<FieldData>) -> (r: Vec<(Field, ArrayRef)>)
    requires
        all_wf(fields@),
    ensures
        child_fields(r@) == fields_of(sort_by_id(children_of(states_of(fields@)))),
        child_views(r@) == arrays_of(sort_by_id(children_of(states_of(fields@)))),
{
    let children = freeze_fields(fields);
    let ghost frozen = children@;
    let children = sort_children(children);
    let ghost sorted = children@;
    let children = strip_ids(children);
    proof {
        let kids = children_of(states_of(fields@));
        let f = |x: (Field, ArrayRef)| (x.0@, x.1@);
        assert forall|i: int| 0 <= i < frozen.len() implies (#[trigger] kids[i]) == (
            frozen[i].0,
            f(frozen[i].1),
        ) by {
            assert(frozen[i].0 == fields@[i]@.type_id);
        }
        lemma_sort_maps(frozen, kids, f);
        assert forall|i: int| 0 <= i < children@.len() implies child_fields(children@)[i]
            == fields_of(sort_by_id(kids))[i] && child_views(children@)[i] == arrays_of(
            sort_by_id(kids),
        )[i] by {
            assert(children@[i] == sorted[i].1);
            assert(sort_by_id(kids)[i] == (sorted[i].0, f(sorted[i].1)));
        }
        assert(child_fields(children@) =~= fields_of(sort_by_id(kids)));
        assert(child_views(children@) =~= arrays_of(sort_by_id(kids)));
    }
    children
}

/// A bitmap that holds `len` slots, all valid, with room for one more.
fn valid_so_far(len: usize) -> (r: BooleanBufferBuilder)
    requires
        len < MAX_SLOTS,
    ensures
        r.wf(),
        r.spec_len() == len,
        r@ == repeat(true, len as nat),
        r.bytes().len() == spec_ceil8((len + 1) as nat),
{
    let mut builder = BooleanBufferBuilder::new(len + 1);
    let mut i: usize = 0;
    while i < len
        invariant
            i <= len,
            len < MAX_SLOTS,
            builder.wf(),
            builder.spec_len() == i,
            builder@ == repeat(true, i as nat),
            builder.bytes().len() == spec_ceil8((len + 1) as nat),
        decreases len - i,
    {
        builder.append(true);
        i = i + 1;
        proof {
            assert(builder@ =~= repeat(true, i as nat));
        }
    }
    builder
}

} // verus!
