//! The two leaf builders: growable storage for fixed-width values of one
//! type, and growable bit-packed storage for booleans.

use crate::bit_util::{
    bit_at, bits_of, ceil, holds_bits, lemma_packed, lemma_zero_byte_bits, pack_bits, spec_ceil8,
    spec_round64, MAX_BITS, MAX_BYTES,
};
use crate::buffer::{grown_capacity, Buffer, MutableBuffer};
use crate::native::{
    decode_all, encode_all, lemma_decode_concat, lemma_decode_push, lemma_encode_decode,
    lemma_encode_len, lemma_encode_push, lemma_encode_zeros, lemma_to_bytes, to_bytes, zero_value,
    zeros, ArrowNativeType,
};
use std::marker::PhantomData;
use vstd::prelude::*;

verus! {

/// The largest number of slots a builder is asked to hold: a slot takes at
/// most 8 bytes.
pub const MAX_SLOTS: usize = MAX_BYTES / 8;

/// `n` copies of `v`.
pub open spec fn repeat<T>(v: T, n: nat) -> Seq<T> {
    Seq::new(n, |i: int| v)
}

/// Builder for a buffer of fixed-width values of type `T`.
#[derive(Debug)]
pub struct BufferBuilder<T: ArrowNativeType> {
    buffer: MutableBuffer,
    len: usize,
    _marker: PhantomData<T>,
}

/// Wraps a byte region that holds `slots` values of type `T`.
pub fn mutable_buffer_to_builder<T: ArrowNativeType>(
    mutable_buffer: MutableBuffer,
    slots: usize,
) -> (r: BufferBuilder<T>)
    requires
        mutable_buffer.wf(),
        mutable_buffer@.len() == slots * T::byte_width(),
        slots <= MAX_SLOTS,
    ensures
        r.wf(),
        r.bytes() == mutable_buffer@,
        r.spec_len() == slots,
        r.byte_capacity() == mutable_buffer.spec_capacity(),
{
    BufferBuilder::<T> { buffer: mutable_buffer, len: slots, _marker: PhantomData }
}

/// Unwraps the byte region of a builder.
pub fn builder_to_mutable_buffer<T: ArrowNativeType>(builder: BufferBuilder<T>) -> (r:
    MutableBuffer)
    requires
        builder.wf(),
    ensures
        r.wf(),
        r@ == builder.bytes(),
        r.spec_capacity() == builder.byte_capacity(),
{
    builder.buffer
}

impl<T: ArrowNativeType> View for BufferBuilder<T> {
    type V = Seq<T>;

    /// The values held.
    open spec fn view(&self) -> Seq<T> {
        decode_all::<T>(self.bytes())
    }
}

impl<T: ArrowNativeType> BufferBuilder<T> {
    /// The bytes held: those of the values, one after the other.
    pub closed spec fn bytes(&self) -> Seq<u8> {
        self.buffer@
    }

    /// The number of values held.
    pub closed spec fn spec_len(&self) -> nat {
        self.len as nat
    }

    /// The capacity of the byte region.
    pub closed spec fn byte_capacity(&self) -> nat {
        self.buffer.spec_capacity()
    }

    /// The number of values that fit the byte region.
    pub open spec fn spec_capacity(&self) -> nat {
        self.byte_capacity() / T::byte_width()
    }

    /// The byte region holds exactly the bytes of `spec_len()` values.
    pub closed spec fn wf(&self) -> bool {
        &&& self.buffer.wf()
        &&& self.buffer@.len() == self.len * T::byte_width()
        &&& self.len <= MAX_SLOTS
    }

    /// What well-formedness says of the public state.
    pub proof fn lemma_wf(&self)
        requires
            self.wf(),
        ensures
            self.bytes().len() == self.spec_len() * T::byte_width(),
            self.bytes().len() % T::byte_width() == 0,
            self.bytes() == encode_all(self@),
            self@.len() == self.spec_len(),
            self.spec_len() <= MAX_SLOTS,
            self.bytes().len() <= self.byte_capacity(),
            self.byte_capacity() <= usize::MAX / 8,
            1 <= T::byte_width() <= 8,
    {
        let w = T::byte_width();
        T::lemma_bits(T::of_bits(0));
        assert((self.len * w) % (w as int) == 0 && (self.len * w) / (w as int) == self.len)
            by (nonlinear_arith)
            requires
                w > 0,
        ;
        lemma_encode_decode::<T>(self.bytes());
    }

    /// A builder with room for at least `capacity` values.
    pub fn new(capacity: usize) -> (r: Self)
        requires
            capacity <= MAX_SLOTS,
        ensures
            r.wf(),
            r@ == Seq::<T>::empty(),
            r.bytes() == Seq::<u8>::empty(),
            r.spec_len() == 0,
            r.byte_capacity() == spec_round64(capacity as nat * T::byte_width()),
    {
        let w: usize = T::size();
        proof {
            assert(0 <= capacity * w <= MAX_BYTES) by (nonlinear_arith)
                requires
                    0 <= capacity <= MAX_BYTES / 8,
                    1 <= w <= 8,
            ;
            assert(decode_all::<T>(Seq::<u8>::empty()) =~= Seq::<T>::empty());
            assert(0 * w == 0) by (nonlinear_arith);
        }
        let buffer = MutableBuffer::new(capacity * w);
        Self { buffer, len: 0, _marker: PhantomData }
    }

    /// The number of values held.
    pub fn len(&self) -> (r: usize)
        ensures
            r == self.spec_len(),
    {
        self.len
    }

    /// Whether no value is held.
    pub fn is_empty(&self) -> (r: bool)
        ensures
            r == (self.spec_len() == 0),
    {
        self.len == 0
    }

    /// The number of values that fit the byte region as it is.
    pub fn capacity(&self) -> (r: usize)
        ensures
            r == self.spec_capacity(),
    {
        let byte_capacity: usize = self.buffer.capacity();
        byte_capacity / T::size()
    }

    /// Grows the builder by `i` values whose bytes are zero.
    pub fn advance(&mut self, i: usize)
        requires
            old(self).wf(),
            old(self).spec_len() + i <= MAX_SLOTS,
        ensures
            final(self).wf(),
            final(self)@ == old(self)@ + repeat(zero_value::<T>(), i as nat),
            final(self).bytes() == old(self).bytes() + zeros(i as nat * T::byte_width()),
            final(self).spec_len() == old(self).spec_len() + i,
            final(self).byte_capacity() == grown_capacity(
                old(self).byte_capacity(),
                (old(self).spec_len() + i) * T::byte_width(),
            ),
    {
        let w: usize = T::size();
        proof {
            self.lemma_wf();
            assert(0 <= (self.len + i) * w <= MAX_BYTES) by (nonlinear_arith)
                requires
                    0 <= self.len + i <= MAX_BYTES / 8,
                    1 <= w <= 8,
            ;
            assert((self.len + i) * w == self.len * w + i * w) by (nonlinear_arith);
            assert(0 <= i * w) by (nonlinear_arith)
                requires
                    0 <= i,
                    0 <= w,
            ;
            lemma_encode_zeros::<T>(i as nat);
            lemma_decode_concat::<T>(self.bytes(), repeat(zero_value::<T>(), i as nat));
        }
        let new_buffer_len: usize = (self.len + i) * w;
        self.buffer.resize(new_buffer_len, 0);
        self.len += i;
        proof {
            assert(self.buffer@ =~= old(self).bytes() + zeros(i as nat * T::byte_width()));
        }
    }

    /// Makes room for at least `n` more values.
    pub fn reserve(&mut self, n: usize)
        requires
            old(self).wf(),
            old(self).spec_len() + n <= MAX_SLOTS,
        ensures
            final(self).wf(),
            final(self).bytes() == old(self).bytes(),
            final(self).spec_len() == old(self).spec_len(),
            final(self).byte_capacity() == grown_capacity(
                old(self).byte_capacity(),
                (old(self).spec_len() + n) * T::byte_width(),
            ),
    {
        let w: usize = T::size();
        proof {
            self.lemma_wf();
            assert(0 <= (self.len + n) * w <= MAX_BYTES) by (nonlinear_arith)
                requires
                    0 <= self.len + n <= MAX_BYTES / 8,
                    1 <= w <= 8,
            ;
            assert((self.len + n) * w == self.len * w + n * w) by (nonlinear_arith);
            assert(0 <= n * w <= MAX_BYTES) by (nonlinear_arith)
                requires
                    0 <= n <= MAX_BYTES / 8,
                    1 <= w <= 8,
            ;
        }
        self.buffer.reserve(n * w);
    }

    /// Appends one value.
    pub fn append(&mut self, v: T)
        requires
            old(self).wf(),
            old(self).spec_len() < MAX_SLOTS,
        ensures
            final(self).wf(),
            final(self)@ == old(self)@.push(v),
            final(self).bytes() == old(self).bytes() + to_bytes(v),
            final(self).spec_len() == old(self).spec_len() + 1,
            final(self).byte_capacity() == grown_capacity(
                old(self).byte_capacity(),
                ((old(self).spec_len() + 1) * T::byte_width()) as int,
            ),
    {
        proof {
            self.lemma_wf();
            lemma_to_bytes(v);
            lemma_decode_push::<T>(self.bytes(), v);
            let w = T::byte_width();
            assert((self.len + 1) * w == self.len * w + w) by (nonlinear_arith);
            assert(0 <= (self.len + 1) * w <= MAX_BYTES) by (nonlinear_arith)
                requires
                    0 <= self.len + 1 <= MAX_BYTES / 8,
                    1 <= w <= 8,
            ;
        }
        self.reserve(1);
        self.buffer.push(v);
        self.len += 1;
    }

    /// Appends `v`, `n` times.
    pub fn append_n(&mut self, n: usize, v: T)
        requires
            old(self).wf(),
            old(self).spec_len() + n <= MAX_SLOTS,
        ensures
            final(self).wf(),
            final(self)@ == old(self)@ + repeat(v, n as nat),
            final(self).bytes() == old(self).bytes() + encode_all(repeat(v, n as nat)),
            final(self).spec_len() == old(self).spec_len() + n,
            final(self).byte_capacity() == grown_capacity(
                old(self).byte_capacity(),
                (old(self).spec_len() + n) * T::byte_width(),
            ),
    {
        let ghost w = T::byte_width();
        proof {
            self.lemma_wf();
            lemma_to_bytes(v);
            lemma_decode_concat::<T>(self.bytes(), repeat(v, n as nat));
            assert(encode_all(repeat(v, 0)) =~= Seq::<u8>::empty());
        }
        self.reserve(n);
        let ghost target = self.buffer.spec_capacity();
        let mut i: usize = 0;
        while i < n
            invariant
                i <= n,
                w == T::byte_width(),
                1 <= w <= 8,
                to_bytes(v).len() == w,
                self.buffer.wf(),
                self.len == old(self).len,
                self.len + n <= MAX_SLOTS,
                old(self).bytes().len() == self.len * w,
                self.buffer.spec_capacity() == target,
                target == grown_capacity(
                    old(self).byte_capacity(),
                    (old(self).spec_len() + n) * T::byte_width(),
                ),
                self.buffer@ == old(self).bytes() + encode_all(repeat(v, i as nat)),
            decreases n - i,
        {
            proof {
                lemma_encode_len(repeat(v, i as nat));
                assert((self.len + n) * w == self.len * w + n * w) by (nonlinear_arith);
                assert(i * w + w <= n * w) by (nonlinear_arith)
                    requires
                        i + 1 <= n,
                        w >= 0,
                ;
                assert(0 <= (self.len + n) * w <= MAX_BYTES) by (nonlinear_arith)
                    requires
                        0 <= self.len + n <= MAX_BYTES / 8,
                        1 <= w <= 8,
                ;
                lemma_encode_push(repeat(v, i as nat), v);
                assert(repeat(v, i as nat).push(v) =~= repeat(v, (i + 1) as nat));
            }
            self.buffer.push(v);
            i = i + 1;
            proof {
                assert(self.buffer@ =~= old(self).bytes() + encode_all(repeat(v, i as nat)));
            }
        }
        proof {
            lemma_encode_len(repeat(v, n as nat));
            assert((self.len + n) * w == self.len * w + n * w) by (nonlinear_arith);
        }
        self.len += n;
    }

    /// Appends the values of `slice`.
    pub fn append_slice(&mut self, slice: &[T])
        requires
            old(self).wf(),
            old(self).spec_len() + slice@.len() <= MAX_SLOTS,
        ensures
            final(self).wf(),
            final(self)@ == old(self)@ + slice@,
            final(self).bytes() == old(self).bytes() + encode_all(slice@),
            final(self).spec_len() == old(self).spec_len() + slice@.len(),
            final(self).byte_capacity() == grown_capacity(
                old(self).byte_capacity(),
                ((old(self).spec_len() + slice@.len()) * T::byte_width()) as int,
            ),
    {
        proof {
            let w = T::byte_width();
            let n = slice@.len();
            self.lemma_wf();
            lemma_decode_concat::<T>(self.bytes(), slice@);
            lemma_encode_len(slice@);
            assert((self.len + n) * w == self.len * w + n * w) by (nonlinear_arith);
            assert(0 <= (self.len + n) * w <= MAX_BYTES) by (nonlinear_arith)
                requires
                    0 <= self.len + n <= MAX_BYTES / 8,
                    1 <= w <= 8,
            ;
        }
        self.buffer.extend_from_slice(slice);
        self.len += slice.len();
    }

    /// Freezes the values held into an immutable buffer and leaves the
    /// builder empty, with no capacity.
    pub fn finish(&mut self) -> (r: Buffer)
        requires
            old(self).wf(),
        ensures
            r@ == old(self).bytes(),
            r@ == encode_all(old(self)@),
            final(self).wf(),
            final(self)@ == Seq::<T>::empty(),
            final(self).bytes() == Seq::<u8>::empty(),
            final(self).spec_len() == 0,
            final(self).byte_capacity() == 0,
    {
        proof {
            self.lemma_wf();
            assert(decode_all::<T>(Seq::<u8>::empty()) =~= Seq::<T>::empty());
            assert(0 * T::byte_width() == 0) by (nonlinear_arith);
        }
        let mut buf = MutableBuffer::new(0);
        std::mem::swap(&mut self.buffer, &mut buf);
        self.len = 0;
        buf.into_buffer()
    }
}

/// Freezing a builder after a slice was appended to it gives the bytes that
/// it held before, then the bytes of each value of the slice in the
/// machine's byte order, one value after the other; the builder has grown by
/// as many values as the slice holds. `before` is the builder before the
/// append, `after` the builder after it, and `frozen` what `finish` then
/// gives.
pub proof fn lemma_slice_frozen<T: ArrowNativeType>(
    before: BufferBuilder<T>,
    after: BufferBuilder<T>,
    xs: Seq<T>,
    frozen: Seq<u8>,
)
    requires
        before.wf(),
        after.wf(),
        after.bytes() == before.bytes() + encode_all(xs),
        frozen == after.bytes(),
    ensures
        after.spec_len() == before.spec_len() + xs.len(),
        after@ == before@ + xs,
        frozen == encode_all(before@ + xs),
        before.spec_len() == 0 ==> frozen == encode_all(xs),
{
    before.lemma_wf();
    after.lemma_wf();
    lemma_encode_len(xs);
    lemma_decode_concat::<T>(before.bytes(), xs);
    crate::native::lemma_encode_concat(before@, xs);
    let w = T::byte_width();
    assert(after.spec_len() == before.spec_len() + xs.len()) by (nonlinear_arith)
        requires
            after.spec_len() * w == before.spec_len() * w + xs.len() * w,
            w >= 1,
    ;
    if before.spec_len() == 0 {
        assert(before@ + xs =~= xs);
    }
}

/// Builder for a bit-packed buffer of booleans: bit `i` is on iff the `i`th
/// boolean appended was `true`.
#[derive(Debug)]
pub struct BooleanBufferBuilder {
    buffer: MutableBuffer,
    len: usize,
}

/// Bits of `a` below `8 * a.len()` are those of `a + b`, and the bits of an
/// all-zero `b` are off.
proof fn lemma_bits_extended(a: Seq<u8>, k: nat, j: int)
    requires
        0 <= j < 8 * (a.len() + k),
    ensures
        bit_at(a + zeros(k), j) == (j < 8 * a.len() && bit_at(a, j)),
{
    if j >= 8 * a.len() {
        lemma_zero_byte_bits((j % 8) as u8);
    }
}

impl View for BooleanBufferBuilder {
    type V = Seq<bool>;

    /// The booleans held.
    open spec fn view(&self) -> Seq<bool> {
        bits_of(self.bytes(), self.spec_len())
    }
}

impl BooleanBufferBuilder {
    /// The bytes held.
    pub closed spec fn bytes(&self) -> Seq<u8> {
        self.buffer@
    }

    /// The number of booleans held.
    pub closed spec fn spec_len(&self) -> nat {
        self.len as nat
    }

    /// The capacity of the byte region.
    pub closed spec fn byte_capacity(&self) -> nat {
        self.buffer.spec_capacity()
    }

    /// The bytes cover the bits, and every bit from `spec_len()` on is off.
    pub closed spec fn wf(&self) -> bool {
        &&& self.buffer.wf()
        &&& self.len <= MAX_BITS
        &&& self.buffer@.len() <= MAX_BYTES
        &&& spec_ceil8(self.len as nat) <= self.buffer@.len()
        &&& forall|j: int|
            self.len <= j < 8 * self.buffer@.len() ==> !#[trigger] bit_at(self.buffer@, j)
    }

    /// What well-formedness says of the public state.
    pub proof fn lemma_wf(&self)
        requires
            self.wf(),
        ensures
            self.spec_len() <= MAX_BITS,
            self.bytes().len() <= MAX_BYTES,
            spec_ceil8(self.spec_len()) <= self.bytes().len(),
            holds_bits(self.bytes(), self@),
            self.bytes() == pack_bits(self@, self.bytes().len()),
            self.bytes().len() <= self.byte_capacity(),
            self.byte_capacity() <= usize::MAX / 8,
            forall|j: int|
                self.spec_len() <= j < 8 * self.bytes().len() ==> !#[trigger] bit_at(
                    self.bytes(),
                    j,
                ),
            self@.len() == self.spec_len(),
    {
        lemma_packed(self.bytes(), self@);
    }

    /// A builder with room for at least `capacity` booleans, over
    /// `ceil(capacity / 8)` zero bytes.
    pub fn new(capacity: usize) -> (r: Self)
        requires
            capacity <= MAX_BITS,
        ensures
            r.wf(),
            r@ == Seq::<bool>::empty(),
            r.spec_len() == 0,
            r.bytes() == zeros(spec_ceil8(capacity as nat)),
            r.byte_capacity() == spec_round64(spec_ceil8(capacity as nat)),
    {
        let byte_capacity: usize = ceil(capacity, 8);
        let buffer = MutableBuffer::from_len_zeroed(byte_capacity);
        proof {
            assert forall|j: int| 0 <= j < 8 * buffer@.len() implies !#[trigger] bit_at(
                buffer@,
                j,
            ) by {
                lemma_zero_byte_bits((j % 8) as u8);
            }
            assert(bits_of(buffer@, 0) =~= Seq::<bool>::empty());
        }
        Self { buffer, len: 0 }
    }

    /// The number of booleans held.
    pub fn len(&self) -> (r: usize)
        ensures
            r == self.spec_len(),
    {
        self.len
    }

    /// Whether no boolean is held.
    pub fn is_empty(&self) -> (r: bool)
        ensures
            r == (self.spec_len() == 0),
    {
        self.len == 0
    }

    /// The number of booleans that fit the byte region as it is.
    pub fn capacity(&self) -> (r: usize)
        requires
            self.wf(),
        ensures
            r == self.byte_capacity() * 8,
    {
        self.buffer.capacity() * 8
    }

    /// Grows the builder by `additional` booleans that are `false`. The byte
    /// region grows, zero-filled, only where it does not cover them yet.
    pub fn advance(&mut self, additional: usize)
        requires
            old(self).wf(),
            old(self).spec_len() + additional <= MAX_BITS,
        ensures
            final(self).wf(),
            final(self).bytes() == pack_bits(final(self)@, final(self).bytes().len()),
            final(self)@ == old(self)@ + repeat(false, additional as nat),
            final(self).spec_len() == old(self).spec_len() + additional,
            final(self).bytes() == old(self).bytes() + zeros(
                (final(self).bytes().len() - old(self).bytes().len()) as nat,
            ),
            final(self).bytes().len() == if spec_ceil8(final(self).spec_len()) > old(
                self,
            ).bytes().len() {
                spec_ceil8(final(self).spec_len())
            } else {
                old(self).bytes().len()
            },
            final(self).byte_capacity() == grown_capacity(
                old(self).byte_capacity(),
                spec_ceil8(final(self).spec_len()) as int,
            ),
    {
        let new_len: usize = self.len + additional;
        let new_len_bytes: usize = ceil(new_len, 8);
        let ghost grew = new_len_bytes > self.buffer@.len();
        if new_len_bytes > self.buffer.len() {
            self.buffer.resize(new_len_bytes, 0);
        }
        self.len = new_len;
        proof {
            let a = old(self).buffer@;
            let k = (self.buffer@.len() - a.len()) as nat;
            assert(self.buffer@ =~= a + zeros(k));
            assert forall|j: int| 0 <= j < 8 * self.buffer@.len() implies #[trigger] bit_at(
                self.buffer@,
                j,
            ) == (j < old(self).len && bit_at(a, j)) by {
                lemma_bits_extended(a, k, j);
            }
            assert(self@ =~= old(self)@ + repeat(false, additional as nat));
            self.lemma_wf();
        }
    }

    /// Makes room for at least `additional` more booleans.
    pub fn reserve(&mut self, additional: usize)
        requires
            old(self).wf(),
            old(self).spec_len() + additional <= MAX_BITS,
        ensures
            final(self).wf(),
            final(self)@ == old(self)@,
            final(self).bytes() == old(self).bytes(),
            final(self).spec_len() == old(self).spec_len(),
            final(self).byte_capacity() == if old(self).spec_len() + additional > 8 * old(
                self,
            ).byte_capacity() {
                grown_capacity(
                    old(self).byte_capacity(),
                    spec_ceil8((old(self).spec_len() + additional) as nat) as int,
                )
            } else {
                old(self).byte_capacity()
            },
    {
        let capacity: usize = self.len + additional;
        if capacity > self.capacity() {
            // convert differential to bytes
            let additional: usize = ceil(capacity, 8) - self.buffer.len();
            self.buffer.reserve(additional);
        }
    }

    /// Appends one boolean.
    pub fn append(&mut self, v: bool)
        requires
            old(self).wf(),
            old(self).spec_len() < MAX_BITS,
        ensures
            final(self).wf(),
            final(self).bytes() == pack_bits(final(self)@, final(self).bytes().len()),
            final(self)@ == old(self)@.push(v),
            final(self).spec_len() == old(self).spec_len() + 1,
            final(self).bytes().len() == if spec_ceil8(final(self).spec_len()) > old(
                self,
            ).bytes().len() {
                spec_ceil8(final(self).spec_len())
            } else {
                old(self).bytes().len()
            },
            final(self).byte_capacity() == grown_capacity(
                old(self).byte_capacity(),
                spec_ceil8(final(self).spec_len()) as int,
            ),
    {
        self.advance(1);
        let ghost mid = self.buffer@;
        if v {
            self.buffer.set_bit(self.len - 1);
        }
        proof {
            assert(self@ =~= old(self)@.push(v)) by {
                assert forall|j: int| 0 <= j < self.len implies self@[j] == old(self)@.push(v)[j] by {
                    assert(bits_of(mid, self.len as nat)[j] == (old(self)@ + repeat(false, 1))[j]);
                }
            }
            self.lemma_wf();
        }
    }

    /// Appends `v`, `additional` times.
    pub fn append_n(&mut self, additional: usize, v: bool)
        requires
            old(self).wf(),
            old(self).spec_len() + additional <= MAX_BITS,
        ensures
            final(self).wf(),
            final(self).bytes() == pack_bits(final(self)@, final(self).bytes().len()),
            final(self)@ == old(self)@ + repeat(v, additional as nat),
            final(self).spec_len() == old(self).spec_len() + additional,
            final(self).bytes().len() == if spec_ceil8(final(self).spec_len()) > old(
                self,
            ).bytes().len() {
                spec_ceil8(final(self).spec_len())
            } else {
                old(self).bytes().len()
            },
            final(self).byte_capacity() == grown_capacity(
                old(self).byte_capacity(),
                spec_ceil8(final(self).spec_len()) as int,
            ),
    {
        self.advance(additional);
        if additional > 0 && v {
            let offset: usize = self.len - additional;
            let ghost mid = self.buffer@;
            let mut i: usize = 0;
            while i < additional
                invariant
                    i <= additional,
                    offset + additional == self.len,
                    self.len <= 8 * self.buffer@.len(),
                    self.buffer@.len() == mid.len(),
                    self.buffer.wf(),
                    self.buffer.spec_capacity() == grown_capacity(
                        old(self).byte_capacity(),
                        spec_ceil8(self.len as nat) as int,
                    ),
                    forall|j: int|
                        0 <= j < 8 * mid.len() ==> #[trigger] bit_at(self.buffer@, j) == (bit_at(
                            mid,
                            j,
                        ) || (offset <= j < offset + i)),
                decreases additional - i,
            {
                self.buffer.set_bit(offset + i);
                i = i + 1;
            }
            proof {
                assert forall|j: int| 0 <= j < self.len implies self@[j] == (old(self)@ + repeat(
                    v,
                    additional as nat,
                ))[j] by {
                    assert(bits_of(mid, self.len as nat)[j] == (old(self)@ + repeat(
                        false,
                        additional as nat,
                    ))[j]);
                }
                assert(self@ =~= old(self)@ + repeat(v, additional as nat));
            }
        } else {
            proof {
                assert(repeat(false, additional as nat) =~= repeat(v, additional as nat));
            }
        }
        proof {
            self.lemma_wf();
        }
    }

    /// Appends the booleans of `slice`.
    pub fn append_slice(&mut self, slice: &[bool])
        requires
            old(self).wf(),
            old(self).spec_len() + slice@.len() <= MAX_BITS,
        ensures
            final(self).wf(),
            final(self).bytes() == pack_bits(final(self)@, final(self).bytes().len()),
            final(self)@ == old(self)@ + slice@,
            final(self).spec_len() == old(self).spec_len() + slice@.len(),
            final(self).bytes().len() == if spec_ceil8(final(self).spec_len()) > old(
                self,
            ).bytes().len() {
                spec_ceil8(final(self).spec_len())
            } else {
                old(self).bytes().len()
            },
            final(self).byte_capacity() == grown_capacity(
                old(self).byte_capacity(),
                spec_ceil8(final(self).spec_len()) as int,
            ),
    {
        let additional: usize = slice.len();
        self.advance(additional);
        let offset: usize = self.len - additional;
        let ghost mid = self.buffer@;
        let mut i: usize = 0;
        while i < additional
            invariant
                i <= additional,
                additional == slice@.len(),
                offset + additional == self.len,
                self.len <= 8 * self.buffer@.len(),
                self.buffer@.len() == mid.len(),
                self.buffer.wf(),
                self.buffer.spec_capacity() == grown_capacity(
                    old(self).byte_capacity(),
                    spec_ceil8(self.len as nat) as int,
                ),
                forall|j: int|
                    0 <= j < 8 * mid.len() ==> #[trigger] bit_at(self.buffer@, j) == (bit_at(mid, j)
                        || (offset <= j < offset + i && slice@[j - offset])),
            decreases additional - i,
        {
            if slice[i] {
                self.buffer.set_bit(offset + i);
            }
            i = i + 1;
        }
        proof {
            assert forall|j: int| 0 <= j < self.len implies self@[j] == (old(self)@ + slice@)[j] by {
                assert(bits_of(mid, self.len as nat)[j] == (old(self)@ + repeat(
                    false,
                    additional as nat,
                ))[j]);
            }
            assert(self@ =~= old(self)@ + slice@);
            self.lemma_wf();
        }
    }

    /// Freezes the bits held into an immutable buffer and leaves the builder
    /// empty, with no capacity.
    pub fn finish(&mut self) -> (r: Buffer)
        requires
            old(self).wf(),
        ensures
            r@ == old(self).bytes(),
            r@ == pack_bits(old(self)@, old(self).bytes().len()),
            holds_bits(r@, old(self)@),
            final(self).wf(),
            final(self)@ == Seq::<bool>::empty(),
            final(self).bytes() == Seq::<u8>::empty(),
            final(self).spec_len() == 0,
            final(self).byte_capacity() == 0,
    {
        proof {
            self.lemma_wf();
        }
        let mut buf = MutableBuffer::new(0);
        std::mem::swap(&mut self.buffer, &mut buf);
        self.len = 0;
        proof {
            assert(bits_of(self.buffer@, 0) =~= Seq::<bool>::empty());
        }
        buf.into_buffer()
    }

    /// Freezes the bits held into an immutable buffer.
    pub fn into_buffer(self) -> (r: Buffer)
        ensures
            r@ == self.bytes(),
    {
        self.buffer.into_buffer()
    }
}

pub type Int8BufferBuilder = BufferBuilder<i8>;

pub type Int16BufferBuilder = BufferBuilder<i16>;

pub type Int32BufferBuilder = BufferBuilder<i32>;

pub type Int64BufferBuilder = BufferBuilder<i64>;

pub type UInt8BufferBuilder = BufferBuilder<u8>;

pub type UInt16BufferBuilder = BufferBuilder<u16>;

pub type UInt32BufferBuilder = BufferBuilder<u32>;

pub type UInt64BufferBuilder = BufferBuilder<u64>;

} // verus!
