//! The machine integer types that a fixed-width buffer can hold, and how a
//! sequence of them lies in a byte buffer.

use crate::byte_order::{
    fits_bytes, get_native, lemma_native_bytes_of_value, lemma_native_bytes_zero,
    lemma_native_value_of_bytes, native_bytes, native_value, put_native,
};
use vstd::prelude::*;

verus! {

/// A fixed-width value with a two's-complement bit pattern of 1, 2, 4 or 8
/// bytes.
pub trait ArrowNativeType: Copy + Sized {
    /// The number of bytes one value takes.
    spec fn byte_width() -> nat;

    /// The value's bit pattern, zero-extended.
    spec fn bits(self) -> u64;

    /// The value with the given bit pattern.
    spec fn of_bits(x: u64) -> Self;

    /// The value as a number.
    spec fn as_int(self) -> int;

    proof fn lemma_bits(v: Self)
        ensures
            1 <= Self::byte_width() <= 8,
            fits_bytes(v.bits(), Self::byte_width()),
            Self::of_bits(v.bits()) == v,
            Self::of_bits(0).as_int() == 0,
    ;

    proof fn lemma_of_bits(x: u64)
        requires
            fits_bytes(x, Self::byte_width()),
        ensures
            Self::of_bits(x).bits() == x,
    ;

    /// Values that are the same number are the same value.
    proof fn lemma_as_int(a: Self, b: Self)
        ensures
            a.as_int() == b.as_int() ==> a == b,
    ;

    /// The number of bytes one value takes.
    fn size() -> (r: usize)
        ensures
            r == Self::byte_width(),
            1 <= r <= 8,
    ;

    /// The value's bit pattern, zero-extended.
    fn to_bits(self) -> (r: u64)
        ensures
            r == self.bits(),
    ;

    /// The value with the given bit pattern.
    fn from_bits(x: u64) -> (r: Self)
        requires
            fits_bytes(x, Self::byte_width()),
        ensures
            r == Self::of_bits(x),
    ;

    /// The value that equals `n`, if the type has one.
    fn from_usize(n: usize) -> (r: Option<Self>)
        ensures
            match r {
                Some(v) => v.as_int() == n,
                None => forall|v: Self| v.as_int() != n,
            },
    ;

    /// The value as a `usize`, if it is one.
    fn to_usize(self) -> (r: Option<usize>)
        ensures
            match r {
                Some(n) => n == self.as_int(),
                None => self.as_int() < 0 || self.as_int() > usize::MAX,
            },
    ;
}

proof fn lemma_fits_widths(x: u64)
    ensures
        fits_bytes(x, 1) <==> x <= 0xff,
        fits_bytes(x, 2) <==> x <= 0xffff,
        fits_bytes(x, 4) <==> x <= 0xffff_ffff,
        fits_bytes(x, 8),
{
    assert(x >> 8u64 == 0 <==> x <= 0xff) by (bit_vector);
    assert(x >> 16u64 == 0 <==> x <= 0xffff) by (bit_vector);
    assert(x >> 32u64 == 0 <==> x <= 0xffff_ffff) by (bit_vector);
}

impl ArrowNativeType for u8 {
    open spec fn byte_width() -> nat {
        1
    }

    open spec fn bits(self) -> u64 {
        self as u64
    }

    open spec fn of_bits(x: u64) -> Self {
        x as u8
    }

    open spec fn as_int(self) -> int {
        self as int
    }

    proof fn lemma_bits(v: Self) {
        lemma_fits_widths(v as u64);
    }

    proof fn lemma_of_bits(x: u64) {
        lemma_fits_widths(x);
    }

    proof fn lemma_as_int(a: Self, b: Self) {
    }

    fn size() -> (r: usize) {
        1
    }

    fn to_bits(self) -> (r: u64) {
        self as u64
    }

    fn from_bits(x: u64) -> (r: Self) {
        proof {
            lemma_fits_widths(x);
        }
        x as u8
    }

    fn from_usize(n: usize) -> (r: Option<Self>) {
        if n <= u8::MAX as usize {
            Some(n as u8)
        } else {
            None
        }
    }

    fn to_usize(self) -> (r: Option<usize>) {
        if self as u64 <= usize::MAX as u64 {
            Some(self as usize)
        } else {
            None
        }
    }
}

impl ArrowNativeType for u16 {
    open spec fn byte_width() -> nat {
        2
    }

    open spec fn bits(self) -> u64 {
        self as u64
    }

    open spec fn of_bits(x: u64) -> Self {
        x as u16
    }

    open spec fn as_int(self) -> int {
        self as int
    }

    proof fn lemma_bits(v: Self) {
        lemma_fits_widths(v as u64);
    }

    proof fn lemma_of_bits(x: u64) {
        lemma_fits_widths(x);
    }

    proof fn lemma_as_int(a: Self, b: Self) {
    }

    fn size() -> (r: usize) {
        2
    }

    fn to_bits(self) -> (r: u64) {
        self as u64
    }

    fn from_bits(x: u64) -> (r: Self) {
        proof {
            lemma_fits_widths(x);
        }
        x as u16
    }

    fn from_usize(n: usize) -> (r: Option<Self>) {
        if n <= u16::MAX as usize {
            Some(n as u16)
        } else {
            None
        }
    }

    fn to_usize(self) -> (r: Option<usize>) {
        if self as u64 <= usize::MAX as u64 {
            Some(self as usize)
        } else {
            None
        }
    }
}

impl ArrowNativeType for u32 {
    open spec fn byte_width() -> nat {
        4
    }

    open spec fn bits(self) -> u64 {
        self as u64
    }

    open spec fn of_bits(x: u64) -> Self {
        x as u32
    }

    open spec fn as_int(self) -> int {
        self as int
    }

    proof fn lemma_bits(v: Self) {
        lemma_fits_widths(v as u64);
    }

    proof fn lemma_of_bits(x: u64) {
        lemma_fits_widths(x);
    }

    proof fn lemma_as_int(a: Self, b: Self) {
    }

    fn size() -> (r: usize) {
        4
    }

    fn to_bits(self) -> (r: u64) {
        self as u64
    }

    fn from_bits(x: u64) -> (r: Self) {
        proof {
            lemma_fits_widths(x);
        }
        x as u32
    }

    fn from_usize(n: usize) -> (r: Option<Self>) {
        if n <= u32::MAX as usize {
            Some(n as u32)
        } else {
            None
        }
    }

    fn to_usize(self) -> (r: Option<usize>) {
        if self as u64 <= usize::MAX as u64 {
            Some(self as usize)
        } else {
            None
        }
    }
}

impl ArrowNativeType for u64 {
    open spec fn byte_width() -> nat {
        8
    }

    open spec fn bits(self) -> u64 {
        self as u64
    }

    open spec fn of_bits(x: u64) -> Self {
        x as u64
    }

    open spec fn as_int(self) -> int {
        self as int
    }

    proof fn lemma_bits(v: Self) {
        lemma_fits_widths(v as u64);
    }

    proof fn lemma_of_bits(x: u64) {
        lemma_fits_widths(x);
    }

    proof fn lemma_as_int(a: Self, b: Self) {
    }

    fn size() -> (r: usize) {
        8
    }

    fn to_bits(self) -> (r: u64) {
        self as u64
    }

    fn from_bits(x: u64) -> (r: Self) {
        proof {
            lemma_fits_widths(x);
        }
        x as u64
    }

    fn from_usize(n: usize) -> (r: Option<Self>) {
        if n as u64 <= u64::MAX {
            Some(n as u64)
        } else {
            None
        }
    }

    fn to_usize(self) -> (r: Option<usize>) {
        if self as u64 <= usize::MAX as u64 {
            Some(self as usize)
        } else {
            None
        }
    }
}

impl ArrowNativeType for i8 {
    open spec fn byte_width() -> nat {
        1
    }

    open spec fn bits(self) -> u64 {
        if self >= 0 {
            self as u64
        } else {
            (0xffu64 + 1 + self) as u64
        }
    }

    open spec fn of_bits(x: u64) -> Self {
        if x <= i8::MAX as u64 {
            x as i8
        } else {
            (x - 0xffu64 - 1) as i8
        }
    }

    open spec fn as_int(self) -> int {
        self as int
    }

    proof fn lemma_bits(v: Self) {
        lemma_fits_widths(v.bits());
    }

    proof fn lemma_of_bits(x: u64) {
        lemma_fits_widths(x);
    }

    proof fn lemma_as_int(a: Self, b: Self) {
    }

    fn size() -> (r: usize) {
        1
    }

    fn to_bits(self) -> (r: u64) {
        if self >= 0 {
            self as u64
        } else {
            0xffu64 - ((-(self + 1)) as u64)
        }
    }

    fn from_bits(x: u64) -> (r: Self) {
        proof {
            lemma_fits_widths(x);
        }
        if x <= i8::MAX as u64 {
            x as i8
        } else {
            -((0xffu64 - x) as i8) - 1
        }
    }

    fn from_usize(n: usize) -> (r: Option<Self>) {
        if n as u64 <= i8::MAX as u64 {
            Some(n as i8)
        } else {
            None
        }
    }

    fn to_usize(self) -> (r: Option<usize>) {
        if self >= 0 && self as u64 <= usize::MAX as u64 {
            Some(self as usize)
        } else {
            None
        }
    }
}

impl ArrowNativeType for i16 {
    open spec fn byte_width() -> nat {
        2
    }

    open spec fn bits(self) -> u64 {
        if self >= 0 {
            self as u64
        } else {
            (0xffffu64 + 1 + self) as u64
        }
    }

    open spec fn of_bits(x: u64) -> Self {
        if x <= i16::MAX as u64 {
            x as i16
        } else {
            (x - 0xffffu64 - 1) as i16
        }
    }

    open spec fn as_int(self) -> int {
        self as int
    }

    proof fn lemma_bits(v: Self) {
        lemma_fits_widths(v.bits());
    }

    proof fn lemma_of_bits(x: u64) {
        lemma_fits_widths(x);
    }

    proof fn lemma_as_int(a: Self, b: Self) {
    }

    fn size() -> (r: usize) {
        2
    }

    fn to_bits(self) -> (r: u64) {
        if self >= 0 {
            self as u64
        } else {
            0xffffu64 - ((-(self + 1)) as u64)
        }
    }

    fn from_bits(x: u64) -> (r: Self) {
        proof {
            lemma_fits_widths(x);
        }
        if x <= i16::MAX as u64 {
            x as i16
        } else {
            -((0xffffu64 - x) as i16) - 1
        }
    }

    fn from_usize(n: usize) -> (r: Option<Self>) {
        if n as u64 <= i16::MAX as u64 {
            Some(n as i16)
        } else {
            None
        }
    }

    fn to_usize(self) -> (r: Option<usize>) {
        if self >= 0 && self as u64 <= usize::MAX as u64 {
            Some(self as usize)
        } else {
            None
        }
    }
}

impl ArrowNativeType for i32 {
    open spec fn byte_width() -> nat {
        4
    }

    open spec fn bits(self) -> u64 {
        if self >= 0 {
            self as u64
        } else {
            (0xffff_ffffu64 + 1 + self) as u64
        }
    }

    open spec fn of_bits(x: u64) -> Self {
        if x <= i32::MAX as u64 {
            x as i32
        } else {
            (x - 0xffff_ffffu64 - 1) as i32
        }
    }

    open spec fn as_int(self) -> int {
        self as int
    }

    proof fn lemma_bits(v: Self) {
        lemma_fits_widths(v.bits());
    }

    proof fn lemma_of_bits(x: u64) {
        lemma_fits_widths(x);
    }

    proof fn lemma_as_int(a: Self, b: Self) {
    }

    fn size() -> (r: usize) {
        4
    }

    fn to_bits(self) -> (r: u64) {
        if self >= 0 {
            self as u64
        } else {
            0xffff_ffffu64 - ((-(self + 1)) as u64)
        }
    }

    fn from_bits(x: u64) -> (r: Self) {
        proof {
            lemma_fits_widths(x);
        }
        if x <= i32::MAX as u64 {
            x as i32
        } else {
            -((0xffff_ffffu64 - x) as i32) - 1
        }
    }

    fn from_usize(n: usize) -> (r: Option<Self>) {
        if n as u64 <= i32::MAX as u64 {
            Some(n as i32)
        } else {
            None
        }
    }

    fn to_usize(self) -> (r: Option<usize>) {
        if self >= 0 && self as u64 <= usize::MAX as u64 {
            Some(self as usize)
        } else {
            None
        }
    }
}

impl ArrowNativeType for i64 {
    open spec fn byte_width() -> nat {
        8
    }

    open spec fn bits(self) -> u64 {
        if self >= 0 {
            self as u64
        } else {
            (0xffff_ffff_ffff_ffffu64 + 1 + self) as u64
        }
    }

    open spec fn of_bits(x: u64) -> Self {
        if x <= i64::MAX as u64 {
            x as i64
        } else {
            (x - 0xffff_ffff_ffff_ffffu64 - 1) as i64
        }
    }

    open spec fn as_int(self) -> int {
        self as int
    }

    proof fn lemma_bits(v: Self) {
        lemma_fits_widths(v.bits());
    }

    proof fn lemma_of_bits(x: u64) {
        lemma_fits_widths(x);
    }

    proof fn lemma_as_int(a: Self, b: Self) {
    }

    fn size() -> (r: usize) {
        8
    }

    fn to_bits(self) -> (r: u64) {
        if self >= 0 {
            self as u64
        } else {
            0xffff_ffff_ffff_ffffu64 - ((-(self + 1)) as u64)
        }
    }

    fn from_bits(x: u64) -> (r: Self) {
        proof {
            lemma_fits_widths(x);
        }
        if x <= i64::MAX as u64 {
            x as i64
        } else {
            -((0xffff_ffff_ffff_ffffu64 - x) as i64) - 1
        }
    }

    fn from_usize(n: usize) -> (r: Option<Self>) {
        if n as u64 <= i64::MAX as u64 {
            Some(n as i64)
        } else {
            None
        }
    }

    fn to_usize(self) -> (r: Option<usize>) {
        if self >= 0 && self as u64 <= usize::MAX as u64 {
            Some(self as usize)
        } else {
            None
        }
    }
}

/// The bytes of one value in the machine's byte order.
pub open spec fn to_bytes<T: ArrowNativeType>(v: T) -> Seq<u8> {
    native_bytes(v.bits(), T::byte_width())
}

/// The value that `b` holds in the machine's byte order.
pub open spec fn from_bytes<T: ArrowNativeType>(b: Seq<u8>) -> T {
    T::of_bits(native_value(b))
}

/// The value whose bytes are all zero.
pub open spec fn zero_value<T: ArrowNativeType>() -> T {
    T::of_bits(0)
}

/// `n` zero bytes.
pub open spec fn zeros(n: nat) -> Seq<u8> {
    Seq::new(n, |i: int| 0u8)
}

/// The bytes of the values of `s`, one after the other.
pub open spec fn encode_all<T: ArrowNativeType>(s: Seq<T>) -> Seq<u8>
    decreases s.len(),
{
    if s.len() == 0 {
        Seq::empty()
    } else {
        encode_all(s.drop_last()) + to_bytes(s.last())
    }
}

/// The bytes of slot `i` in a buffer of values of width `w`.
pub open spec fn slot_bytes(bytes: Seq<u8>, w: nat, i: int) -> Seq<u8> {
    bytes.subrange(i * w, (i + 1) * w)
}

/// The values that `bytes` holds, slot by slot.
pub open spec fn decode_all<T: ArrowNativeType>(bytes: Seq<u8>) -> Seq<T> {
    Seq::new(
        bytes.len() / T::byte_width(),
        |i: int| from_bytes::<T>(slot_bytes(bytes, T::byte_width(), i)),
    )
}

/// A value is written as `byte_width()` bytes, which read back as the
/// value.
pub proof fn lemma_to_bytes<T: ArrowNativeType>(v: T)
    ensures
        to_bytes(v).len() == T::byte_width(),
        from_bytes::<T>(to_bytes(v)) == v,
        1 <= T::byte_width() <= 8,
{
    T::lemma_bits(v);
    lemma_native_value_of_bytes(v.bits(), T::byte_width());
}

/// `byte_width()` bytes are the bytes of the value that they read as.
pub proof fn lemma_from_bytes<T: ArrowNativeType>(b: Seq<u8>)
    requires
        b.len() == T::byte_width(),
    ensures
        to_bytes(from_bytes::<T>(b)) == b,
{
    T::lemma_bits(T::of_bits(0));
    lemma_native_bytes_of_value(b);
    T::lemma_of_bits(native_value(b));
}

/// The zero value is written as zero bytes.
pub proof fn lemma_zero_bytes<T: ArrowNativeType>()
    ensures
        to_bytes(zero_value::<T>()) == zeros(T::byte_width()),
        from_bytes::<T>(zeros(T::byte_width())) == zero_value::<T>(),
        zero_value::<T>().as_int() == 0,
{
    T::lemma_bits(T::of_bits(0));
    let shift = (8 * T::byte_width()) as u64;
    assert(0u64 >> shift == 0) by (bit_vector);
    T::lemma_of_bits(0);
    lemma_native_bytes_zero(T::byte_width());
    lemma_to_bytes(zero_value::<T>());
}

/// Values are written as `byte_width()` bytes each.
pub proof fn lemma_encode_len<T: ArrowNativeType>(s: Seq<T>)
    ensures
        encode_all(s).len() == s.len() * T::byte_width(),
    decreases s.len(),
{
    if s.len() > 0 {
        lemma_encode_len(s.drop_last());
        lemma_to_bytes(s.last());
        assert((s.len() - 1) * T::byte_width() + T::byte_width() == s.len() * T::byte_width())
            by (nonlinear_arith);
    }
}

/// One more value is written after the values before it.
pub proof fn lemma_encode_push<T: ArrowNativeType>(s: Seq<T>, v: T)
    ensures
        encode_all(s.push(v)) == encode_all(s) + to_bytes(v),
{
    assert(s.push(v).drop_last() =~= s);
}

/// More values are written after the values before them.
pub proof fn lemma_encode_concat<T: ArrowNativeType>(a: Seq<T>, b: Seq<T>)
    ensures
        encode_all(a + b) == encode_all(a) + encode_all(b),
    decreases b.len(),
{
    if b.len() == 0 {
        assert(a + b =~= a);
        assert(encode_all(a) + encode_all(b) =~= encode_all(a));
    } else {
        lemma_encode_concat(a, b.drop_last());
        assert((a + b).drop_last() =~= a + b.drop_last());
        assert(encode_all(a + b) =~= encode_all(a) + encode_all(b));
    }
}

/// Slot `i` of the bytes of `s` holds the bytes of `s[i]`.
pub proof fn lemma_encode_slot<T: ArrowNativeType>(s: Seq<T>, i: int)
    requires
        0 <= i < s.len(),
    ensures
        slot_bytes(encode_all(s), T::byte_width(), i) == to_bytes(s[i]),
        from_bytes::<T>(slot_bytes(encode_all(s), T::byte_width(), i)) == s[i],
    decreases s.len(),
{
    let w = T::byte_width();
    lemma_to_bytes(s.last());
    lemma_to_bytes(s[i]);
    lemma_encode_len(s.drop_last());
    lemma_encode_len(s);
    assert(i * w + w == (i + 1) * w) by (nonlinear_arith);
    if i == s.len() - 1 {
        assert(slot_bytes(encode_all(s), w, i) =~= to_bytes(s[i]));
    } else {
        lemma_encode_slot(s.drop_last(), i);
        assert((i + 1) * w <= (s.len() - 1) * w) by (nonlinear_arith)
            requires
                i + 1 <= s.len() - 1,
                w >= 0,
        ;
        assert(slot_bytes(encode_all(s), w, i) =~= slot_bytes(encode_all(s.drop_last()), w, i));
    }
}

/// Reading back what was written gives the values.
pub proof fn lemma_decode_encode<T: ArrowNativeType>(s: Seq<T>)
    ensures
        decode_all::<T>(encode_all(s)) == s,
{
    let w = T::byte_width();
    T::lemma_bits(T::of_bits(0));
    lemma_encode_len(s);
    assert((s.len() * w) / w == s.len()) by (nonlinear_arith)
        requires
            w > 0,
    ;
    assert forall|i: int| 0 <= i < s.len() implies decode_all::<T>(encode_all(s))[i] == s[i] by {
        lemma_encode_slot(s, i);
    }
    assert(decode_all::<T>(encode_all(s)) =~= s);
}

/// Writing out what a whole number of slots holds gives their bytes.
pub proof fn lemma_encode_decode<T: ArrowNativeType>(bytes: Seq<u8>)
    requires
        bytes.len() % T::byte_width() == 0,
    ensures
        encode_all(decode_all::<T>(bytes)) == bytes,
        decode_all::<T>(bytes).len() * T::byte_width() == bytes.len(),
    decreases bytes.len(),
{
    let w = T::byte_width();
    T::lemma_bits(T::of_bits(0));
    let n = bytes.len() / w;
    assert(n * w == bytes.len()) by (nonlinear_arith)
        requires
            n == bytes.len() / w,
            bytes.len() % w == 0,
            w > 0,
    ;
    let s = decode_all::<T>(bytes);
    if n > 0 {
        let cut = (n - 1) * w;
        assert(cut + w == n * w) by (nonlinear_arith)
            requires
                cut == (n - 1) * w,
        ;
        let front = bytes.subrange(0, cut);
        assert(cut % (w as int) == 0 && cut / (w as int) == n - 1) by (nonlinear_arith)
            requires
                cut == (n - 1) * w,
                w > 0,
                n >= 1,
        ;
        lemma_encode_decode::<T>(front);
        assert forall|i: int| 0 <= i < n - 1 implies decode_all::<T>(front)[i] == s[i] by {
            assert(i * w + w == (i + 1) * w) by (nonlinear_arith);
            assert((i + 1) * w <= cut) by (nonlinear_arith)
                requires
                    i + 1 <= n - 1,
                    cut == (n - 1) * w,
                    w >= 0,
            ;
            assert(0 <= i * w) by (nonlinear_arith)
                requires
                    0 <= i,
                    w >= 0,
            ;
            assert(slot_bytes(front, w, i) =~= slot_bytes(bytes, w, i));
        }
        assert(decode_all::<T>(front) =~= s.drop_last());
        let last = slot_bytes(bytes, w, n - 1);
        assert(last =~= bytes.subrange(cut, bytes.len() as int));
        lemma_from_bytes::<T>(last);
        assert(bytes =~= front + last);
    } else {
        assert(bytes.len() == 0) by (nonlinear_arith)
            requires
                n * w == bytes.len(),
                n == 0,
        ;
        assert(bytes =~= Seq::<u8>::empty());
    }
}

/// Appending the bytes of one value to whole slots appends the value.
pub proof fn lemma_decode_push<T: ArrowNativeType>(bytes: Seq<u8>, v: T)
    requires
        bytes.len() % T::byte_width() == 0,
    ensures
        decode_all::<T>(bytes + to_bytes(v)) == decode_all::<T>(bytes).push(v),
{
    lemma_encode_decode::<T>(bytes);
    lemma_encode_push(decode_all::<T>(bytes), v);
    lemma_decode_encode(decode_all::<T>(bytes).push(v));
}

/// Appending the bytes of values to whole slots appends the values.
pub proof fn lemma_decode_concat<T: ArrowNativeType>(bytes: Seq<u8>, s: Seq<T>)
    requires
        bytes.len() % T::byte_width() == 0,
    ensures
        decode_all::<T>(bytes + encode_all(s)) == decode_all::<T>(bytes) + s,
{
    lemma_encode_decode::<T>(bytes);
    lemma_encode_concat(decode_all::<T>(bytes), s);
    lemma_decode_encode(decode_all::<T>(bytes) + s);
}

/// `n` zero values are written as zero bytes.
pub proof fn lemma_encode_zeros<T: ArrowNativeType>(n: nat)
    ensures
        encode_all(Seq::new(n, |i: int| zero_value::<T>())) == zeros(n * T::byte_width()),
    decreases n,
{
    let s = Seq::new(n, |i: int| zero_value::<T>());
    let w = T::byte_width();
    if n == 0 {
        assert(0 * w == 0) by (nonlinear_arith);
        assert(encode_all(s) =~= zeros(n * w));
    } else {
        lemma_encode_zeros::<T>((n - 1) as nat);
        lemma_zero_bytes::<T>();
        assert(s.drop_last() =~= Seq::new((n - 1) as nat, |i: int| zero_value::<T>()));
        assert((n - 1) * w + w == n * w) by (nonlinear_arith);
        assert(encode_all(s) =~= zeros(n * w));
    }
}

/// Appends the bytes of `v` to `out`.
pub fn write_value<T: ArrowNativeType>(v: T, out: &mut Vec<u8>)
    ensures
        final(out)@ == old(out)@ + to_bytes(v),
{
    put_native(v.to_bits(), T::size(), out);
}

/// Reads the value in slot `i` of `data`.
pub fn read_value<T: ArrowNativeType>(data: &[u8], i: usize) -> (r: T)
    requires
        (i + 1) * T::byte_width() <= data@.len(),
    ensures
        r == from_bytes::<T>(slot_bytes(data@, T::byte_width(), i as int)),
{
    let w: usize = T::size();
    let total: usize = data.len();
    proof {
        assert(i * w + w == (i + 1) * w) by (nonlinear_arith);
        assert(0 <= i * w) by (nonlinear_arith)
            requires
                0 <= i,
                0 <= w,
        ;
        lemma_native_bytes_of_value(slot_bytes(data@, T::byte_width(), i as int));
    }
    let x: u64 = get_native(data, i * w, w);
    T::from_bits(x)
}

/// A machine type that can hold the offsets of a variable-length array:
/// `i32`, or `i64` for the large variants.
pub trait OffsetSizeTrait: ArrowNativeType {
    /// Whether this is the 64-bit offset type.
    spec fn spec_is_large() -> bool;

    /// The largest offset the type can hold.
    spec fn spec_max() -> int;

    proof fn lemma_offset(v: Self)
        ensures
            v.as_int() <= Self::spec_max(),
            Self::spec_max() <= i64::MAX,
            Self::spec_max() >= i32::MAX,
    ;

    /// Whether this is the 64-bit offset type.
    fn is_large() -> (r: bool)
        ensures
            r == Self::spec_is_large(),
    ;

    /// The offset `n`.
    fn from_index(n: usize) -> (r: Self)
        requires
            n <= Self::spec_max(),
        ensures
            r.as_int() == n,
    ;

    /// The distance from `start` to `end`.
    fn span(start: Self, end: Self) -> (r: Self)
        requires
            0 <= start.as_int() <= end.as_int(),
        ensures
            r.as_int() == end.as_int() - start.as_int(),
    ;
}

impl OffsetSizeTrait for i32 {
    open spec fn spec_is_large() -> bool {
        false
    }

    open spec fn spec_max() -> int {
        i32::MAX as int
    }

    proof fn lemma_offset(v: Self) {
    }

    fn is_large() -> (r: bool) {
        false
    }

    fn from_index(n: usize) -> (r: Self) {
        n as i32
    }

    fn span(start: Self, end: Self) -> (r: Self) {
        end - start
    }
}

impl OffsetSizeTrait for i64 {
    open spec fn spec_is_large() -> bool {
        true
    }

    open spec fn spec_max() -> int {
        i64::MAX as int
    }

    proof fn lemma_offset(v: Self) {
    }

    fn is_large() -> (r: bool) {
        true
    }

    fn from_index(n: usize) -> (r: Self) {
        n as i64
    }

    fn span(start: Self, end: Self) -> (r: Self) {
        end - start
    }
}

/// A byte is its own encoding.
pub proof fn lemma_encode_bytes(s: Seq<u8>)
    ensures
        encode_all(s) == s,
    decreases s.len(),
{
    if s.len() == 0 {
        assert(encode_all(s) =~= s);
    } else {
        lemma_encode_bytes(s.drop_last());
        let v = s.last();
        let x = v as u64;
        assert(((x >> 0u64) & 0xffu64) as u8 == v) by (bit_vector)
            requires
                x == v as u64,
        ;
        assert(crate::byte_order::le_bytes(x, 1) =~= seq![v]);
        assert(crate::byte_order::le_bytes(x, 1).reverse() =~= seq![v]);
        assert(to_bytes(v) =~= seq![v]);
        assert(encode_all(s) =~= s);
    }
}

} // verus!
