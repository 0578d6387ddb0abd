//! Byte regions: a growable one that builders write into, and the immutable
//! one that it freezes to.

use crate::bit_util::{
    bit_at, bits_of, count_set_bits, count_true, get_bit, round_upto_multiple_of_64, set_bit,
    spec_round64, MAX_BYTES,
};
use crate::native::{
    decode_all, encode_all, from_bytes, lemma_encode_push, read_value, slot_bytes, to_bytes,
    write_value, zeros, ArrowNativeType,
};
use vstd::prelude::*;

verus! {

/// The capacity that a region of capacity `capacity` has once it was asked to
/// hold `required` bytes: unchanged if they fit, else the larger of `required`
/// rounded up to a multiple of 64 and twice the old capacity.
pub open spec fn grown_capacity(capacity: nat, required: int) -> nat {
    if required <= capacity {
        capacity
    } else if spec_round64(required as nat) >= 2 * capacity {
        spec_round64(required as nat)
    } else {
        2 * capacity
    }
}

/// `bytes` cut or zero-extended to `n` bytes.
pub open spec fn resized(bytes: Seq<u8>, n: nat, fill: u8) -> Seq<u8> {
    if n <= bytes.len() {
        bytes.take(n as int)
    } else {
        bytes + Seq::new((n - bytes.len()) as nat, |i: int| fill)
    }
}

/// A growable byte region with a tracked capacity.
#[derive(Debug)]
pub struct MutableBuffer {
    data: Vec<u8>,
    capacity: usize,
}

impl View for MutableBuffer {
    type V = Seq<u8>;

    closed spec fn view(&self) -> Seq<u8> {
        self.data@
    }
}

impl MutableBuffer {
    /// The number of bytes the region can hold before it grows.
    pub closed spec fn spec_capacity(&self) -> nat {
        self.capacity as nat
    }

    /// The content fits the capacity, and the capacity can be counted in bits.
    pub open spec fn wf(&self) -> bool {
        &&& self@.len() <= self.spec_capacity()
        &&& self.spec_capacity() <= usize::MAX / 8
    }

    /// An empty region with room for at least `capacity` bytes.
    pub fn new(capacity: usize) -> (r: Self)
        requires
            capacity <= MAX_BYTES,
        ensures
            r.wf(),
            r@ == Seq::<u8>::empty(),
            r.spec_capacity() == spec_round64(capacity as nat),
    {
        let capacity = round_upto_multiple_of_64(capacity);
        MutableBuffer { data: Vec::new(), capacity }
    }

    /// A region of `len` zero bytes.
    pub fn from_len_zeroed(len: usize) -> (r: Self)
        requires
            len <= MAX_BYTES,
        ensures
            r.wf(),
            r@ == zeros(len as nat),
            r.spec_capacity() == spec_round64(len as nat),
    {
        let capacity = round_upto_multiple_of_64(len);
        let mut data: Vec<u8> = Vec::new();
        let mut i: usize = 0;
        while i < len
            invariant
                i <= len,
                data@ == zeros(i as nat),
            decreases len - i,
        {
            data.push(0u8);
            i = i + 1;
            proof {
                assert(data@ =~= zeros(i as nat));
            }
        }
        MutableBuffer { data, capacity }
    }

    /// The number of bytes held.
    pub fn len(&self) -> (r: usize)
        ensures
            r == self@.len(),
    {
        self.data.len()
    }

    /// Whether no byte is held.
    pub fn is_empty(&self) -> (r: bool)
        ensures
            r == (self@.len() == 0),
    {
        self.data.len() == 0
    }

    /// The number of bytes the region can hold before it grows.
    pub fn capacity(&self) -> (r: usize)
        ensures
            r == self.spec_capacity(),
    {
        self.capacity
    }

    /// The bytes held.
    pub fn as_slice(&self) -> (r: &[u8])
        ensures
            r@ == self@,
    {
        self.data.as_slice()
    }

    /// Makes room for `additional` more bytes.
    pub fn reserve(&mut self, additional: usize)
        requires
            old(self).wf(),
            old(self)@.len() + additional <= MAX_BYTES,
        ensures
            final(self).wf(),
            final(self)@ == old(self)@,
            final(self).spec_capacity() == grown_capacity(
                old(self).spec_capacity(),
                old(self)@.len() + additional,
            ),
    {
        let required: usize = self.data.len() + additional;
        if required > self.capacity {
            let rounded: usize = round_upto_multiple_of_64(required);
            let doubled: usize = self.capacity * 2;
            self.capacity = if rounded >= doubled {
                rounded
            } else {
                doubled
            };
        }
    }

    /// Sets the length to `new_len`: cuts the content, or extends it with
    /// copies of `value`.
    pub fn resize(&mut self, new_len: usize, value: u8)
        requires
            old(self).wf(),
            new_len <= MAX_BYTES,
        ensures
            final(self).wf(),
            final(self)@ == resized(old(self)@, new_len as nat, value),
            final(self).spec_capacity() == grown_capacity(
                old(self).spec_capacity(),
                new_len as int,
            ),
    {
        let len: usize = self.data.len();
        if new_len > len {
            self.reserve(new_len - len);
            let mut i: usize = len;
            while i < new_len
                invariant
                    len <= i <= new_len,
                    self.capacity == grown_capacity(old(self).spec_capacity(), new_len as int),
                    self.data@ == old(self)@ + Seq::new((i - len) as nat, |k: int| value),
                    len == old(self)@.len(),
                decreases new_len - i,
            {
                self.data.push(value);
                i = i + 1;
                proof {
                    assert(self.data@ =~= old(self)@ + Seq::new((i - len) as nat, |k: int| value));
                }
            }
        } else {
            self.data.truncate(new_len);
            proof {
                assert(self.data@ =~= old(self)@.take(new_len as int));
            }
        }
    }

    /// Appends the bytes of one value.
    pub fn push<T: ArrowNativeType>(&mut self, item: T)
        requires
            old(self).wf(),
            old(self)@.len() + T::byte_width() <= MAX_BYTES,
        ensures
            final(self).wf(),
            final(self)@ == old(self)@ + to_bytes(item),
            final(self).spec_capacity() == grown_capacity(
                old(self).spec_capacity(),
                (old(self)@.len() + T::byte_width()) as int,
            ),
    {
        proof {
            crate::native::lemma_to_bytes(item);
        }
        self.reserve(T::size());
        write_value(item, &mut self.data);
    }

    /// Appends the bytes of the values of `items`.
    pub fn extend_from_slice<T: ArrowNativeType>(&mut self, items: &[T])
        requires
            old(self).wf(),
            old(self)@.len() + items@.len() * T::byte_width() <= MAX_BYTES,
        ensures
            final(self).wf(),
            final(self)@ == old(self)@ + encode_all(items@),
            final(self).spec_capacity() == grown_capacity(
                old(self).spec_capacity(),
                (old(self)@.len() + items@.len() * T::byte_width()) as int,
            ),
    {
        let n: usize = items.len();
        let w: usize = T::size();
        proof {
            crate::native::lemma_encode_len(items@);
            assert(0 <= n * w) by (nonlinear_arith)
                requires
                    0 <= n,
                    0 <= w,
            ;
        }
        self.reserve(n * w);
        let mut i: usize = 0;
        while i < n
            invariant
                i <= n,
                n == items@.len(),
                self.capacity == grown_capacity(
                    old(self).spec_capacity(),
                    (old(self)@.len() + items@.len() * T::byte_width()) as int,
                ),
                self.data@ == old(self)@ + encode_all(items@.take(i as int)),
            decreases n - i,
        {
            write_value(items[i], &mut self.data);
            proof {
                lemma_encode_push(items@.take(i as int), items@[i as int]);
                assert(items@.take(i + 1) =~= items@.take(i as int).push(items@[i as int]));
                assert(self.data@ =~= old(self)@ + encode_all(items@.take(i + 1)));
            }
            i = i + 1;
        }
        proof {
            assert(items@.take(n as int) =~= items@);
        }
    }

    /// Switches bit `i` on.
    pub fn set_bit(&mut self, i: usize)
        requires
            i < 8 * old(self)@.len(),
        ensures
            final(self)@.len() == old(self)@.len(),
            final(self).spec_capacity() == old(self).spec_capacity(),
            forall|j: int|
                0 <= j < 8 * old(self)@.len() ==> #[trigger] bit_at(final(self)@, j) == (j == i
                    || bit_at(old(self)@, j)),
    {
        set_bit(&mut self.data, i);
    }

    /// Whether bit `i` is on.
    pub fn get_bit(&self, i: usize) -> (r: bool)
        requires
            i < 8 * self@.len(),
        ensures
            r == bit_at(self@, i as int),
    {
        get_bit(self.data.as_slice(), i)
    }

    /// Freezes the region.
    pub fn into_buffer(self) -> (r: Buffer)
        ensures
            r@ == self@,
    {
        Buffer { data: self.data }
    }
}

/// An immutable byte region.
#[derive(Debug, PartialEq, Eq)]
pub struct Buffer {
    data: Vec<u8>,
}

impl View for Buffer {
    type V = Seq<u8>;

    closed spec fn view(&self) -> Seq<u8> {
        self.data@
    }
}

impl Clone for Buffer {
    fn clone(&self) -> (r: Self)
        ensures
            r@ == self@,
    {
        let data = self.data.clone();
        proof {
            assert(data@ =~= self.data@);
        }
        Buffer { data }
    }
}

impl Buffer {
    /// A buffer that holds a copy of `bytes`.
    pub fn from_bytes(bytes: &[u8]) -> (r: Self)
        ensures
            r@ == bytes@,
    {
        let mut data: Vec<u8> = Vec::new();
        let mut i: usize = 0;
        while i < bytes.len()
            invariant
                i <= bytes@.len(),
                data@ == bytes@.take(i as int),
            decreases bytes@.len() - i,
        {
            data.push(bytes[i]);
            i = i + 1;
            proof {
                assert(data@ =~= bytes@.take(i as int));
            }
        }
        proof {
            assert(bytes@.take(bytes@.len() as int) =~= bytes@);
        }
        Buffer { data }
    }

    /// A buffer that holds the bytes of the values of `items`.
    pub fn from_slice_ref<T: ArrowNativeType>(items: &[T]) -> (r: Self)
        ensures
            r@ == encode_all(items@),
    {
        let mut data: Vec<u8> = Vec::new();
        let mut i: usize = 0;
        while i < items.len()
            invariant
                i <= items@.len(),
                data@ == encode_all(items@.take(i as int)),
            decreases items@.len() - i,
        {
            write_value(items[i], &mut data);
            proof {
                lemma_encode_push(items@.take(i as int), items@[i as int]);
                assert(items@.take(i + 1) =~= items@.take(i as int).push(items@[i as int]));
            }
            i = i + 1;
        }
        proof {
            assert(items@.take(items@.len() as int) =~= items@);
        }
        Buffer { data }
    }

    /// The number of bytes held.
    pub fn len(&self) -> (r: usize)
        ensures
            r == self@.len(),
    {
        self.data.len()
    }

    /// Whether no byte is held.
    pub fn is_empty(&self) -> (r: bool)
        ensures
            r == (self@.len() == 0),
    {
        self.data.len() == 0
    }

    /// The bytes held.
    pub fn as_slice(&self) -> (r: &[u8])
        ensures
            r@ == self@,
    {
        self.data.as_slice()
    }

    /// The number of bits that are on.
    pub fn count_set_bits(&self) -> (r: usize)
        requires
            8 * self@.len() <= usize::MAX,
        ensures
            r == count_true(bits_of(self@, 8 * self@.len())),
    {
        count_set_bits(self.data.as_slice())
    }

    /// Whether bit `i` is on.
    pub fn get_bit(&self, i: usize) -> (r: bool)
        requires
            i < 8 * self@.len(),
        ensures
            r == bit_at(self@, i as int),
    {
        get_bit(self.data.as_slice(), i)
    }

    /// The value in slot `i`, the buffer read as values of type `T`.
    pub fn value<T: ArrowNativeType>(&self, i: usize) -> (r: T)
        requires
            (i + 1) * T::byte_width() <= self@.len(),
        ensures
            r == from_bytes::<T>(slot_bytes(self@, T::byte_width(), i as int)),
    {
        read_value(self.data.as_slice(), i)
    }

    /// The values held, the buffer read as values of type `T`.
    pub fn typed_data<T: ArrowNativeType>(&self) -> (r: Vec<T>)
        ensures
            r@ == decode_all::<T>(self@),
    {
        let w: usize = T::size();
        let n: usize = self.data.len() / w;
        let mut out: Vec<T> = Vec::new();
        let mut i: usize = 0;
        while i < n
            invariant
                i <= n,
                n == self@.len() / T::byte_width(),
                w == T::byte_width(),
                w > 0,
                out@ == decode_all::<T>(self@).take(i as int),
            decreases n - i,
        {
            proof {
                assert((i + 1) * w <= self@.len()) by (nonlinear_arith)
                    requires
                        i + 1 <= n,
                        n == self@.len() / (w as nat),
                        w > 0,
                ;
            }
            let v: T = read_value(self.data.as_slice(), i);
            out.push(v);
            proof {
                assert(out@ =~= decode_all::<T>(self@).take(i + 1));
            }
            i = i + 1;
        }
        proof {
            assert(decode_all::<T>(self@).take(n as int) =~= decode_all::<T>(self@));
        }
        out
    }
}

} // verus!
