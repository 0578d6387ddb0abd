//! Fixed-width bit patterns as bytes in the byte order of the machine.
//!
//! A pattern of `n` bytes (`n` at most 8) is held in a `u64`. Its little-endian
//! form lists the least significant byte first; the native form is that list,
//! turned round on a big-endian machine.

use vstd::prelude::*;

verus! {

/// The `n` low bytes of `x`, least significant first.
pub open spec fn le_bytes(x: u64, n: nat) -> Seq<u8> {
    Seq::new(n, |i: int| ((x >> ((8 * i) as u64)) & 0xffu64) as u8)
}

/// The pattern whose little-endian bytes are `b` (at most 8 of them).
pub open spec fn le_value(b: Seq<u8>) -> u64
    decreases b.len(),
{
    if b.len() == 0 {
        0u64
    } else {
        le_value(b.drop_last()) | ((b.last() as u64) << ((8 * (b.len() - 1)) as u64))
    }
}

/// Whether this machine stores the least significant byte first.
pub open spec fn little_endian() -> bool {
    vstd::endian::endianness() is Little
}

/// The `n` low bytes of `x` in the machine's byte order.
pub open spec fn native_bytes(x: u64, n: nat) -> Seq<u8> {
    if little_endian() {
        le_bytes(x, n)
    } else {
        le_bytes(x, n).reverse()
    }
}

/// The pattern that `b` holds in the machine's byte order.
pub open spec fn native_value(b: Seq<u8>) -> u64 {
    if little_endian() {
        le_value(b)
    } else {
        le_value(b.reverse())
    }
}

/// Whether `x` has no bit above its `n` low bytes.
pub open spec fn fits_bytes(x: u64, n: nat) -> bool {
    n >= 8 || x >> ((8 * n) as u64) == 0
}

proof fn lemma_le_value_fits(b: Seq<u8>)
    requires
        b.len() <= 8,
    ensures
        fits_bytes(le_value(b), b.len()),
    decreases b.len(),
{
    if b.len() == 0 {
        assert(0u64 >> 0u64 == 0) by (bit_vector);
    } else {
        let rest = b.drop_last();
        lemma_le_value_fits(rest);
        let a = le_value(rest);
        let l = b.last() as u64;
        let s = (8 * (b.len() - 1)) as u64;
        if b.len() < 8 {
            assert((a | (l << s)) >> ((s + 8) as u64) == 0) by (bit_vector)
                requires
                    a >> s == 0,
                    l < 256,
                    s <= 48,
            ;
        }
    }
}

/// Reading back the little-endian bytes of a pattern gives the pattern.
pub proof fn lemma_le_value_of_bytes(x: u64, n: nat)
    requires
        n <= 8,
        fits_bytes(x, n),
    ensures
        le_value(le_bytes(x, n)) == x,
{
    lemma_le_prefix(x, n, n);
    assert(le_bytes(x, n).take(n as int) =~= le_bytes(x, n));
    if n < 8 {
        let s = (8 * n) as u64;
        assert(x & (((1u64 << s) - 1) as u64) == x) by (bit_vector)
            requires
                x >> s == 0,
                s <= 56,
        ;
    }
}

/// The low `k` bytes of a pattern, read back, give the pattern cut to them.
proof fn lemma_le_prefix(x: u64, n: nat, k: nat)
    requires
        k <= n <= 8,
    ensures
        k < 8 ==> le_value(le_bytes(x, n).take(k as int)) == x & (((1u64 << ((8 * k) as u64))
            - 1) as u64),
        k == 8 ==> le_value(le_bytes(x, n).take(k as int)) == x,
    decreases k,
{
    let p = le_bytes(x, n).take(k as int);
    if k == 0 {
        assert(x & (((1u64 << 0u64) - 1) as u64) == 0) by (bit_vector);
    } else {
        lemma_le_prefix(x, n, (k - 1) as nat);
        assert(p.drop_last() =~= le_bytes(x, n).take(k - 1));
        let s = (8 * (k - 1)) as u64;
        let a = le_value(p.drop_last());
        let byte = ((x >> s) & 0xffu64) as u8;
        assert(p.last() == byte);
        assert((((x >> s) & 0xffu64) as u8) as u64 == (x >> s) & 0xffu64) by (bit_vector);
        if k < 8 {
            assert((x & (((1u64 << s) - 1) as u64)) | (((x >> s) & 0xffu64) << s) == x & (((1u64
                << ((s + 8) as u64)) - 1) as u64)) by (bit_vector)
                requires
                    s <= 48,
            ;
        } else {
            assert((x & (((1u64 << s) - 1) as u64)) | (((x >> s) & 0xffu64) << s) == x)
                by (bit_vector)
                requires
                    s == 56,
            ;
        }
    }
}

/// Writing out the pattern that bytes hold gives those bytes.
pub proof fn lemma_le_bytes_of_value(b: Seq<u8>)
    requires
        b.len() <= 8,
    ensures
        le_bytes(le_value(b), b.len()) == b,
{
    assert forall|i: int| 0 <= i < b.len() implies le_bytes(le_value(b), b.len())[i] == b[i] by {
        lemma_le_byte(b, i);
    }
    assert(le_bytes(le_value(b), b.len()) =~= b);
}

proof fn lemma_le_byte(b: Seq<u8>, i: int)
    requires
        b.len() <= 8,
        0 <= i < b.len(),
    ensures
        ((le_value(b) >> ((8 * i) as u64)) & 0xffu64) as u8 == b[i],
    decreases b.len(),
{
    let rest = b.drop_last();
    let a = le_value(rest);
    let l = b.last() as u64;
    let s = (8 * (b.len() - 1)) as u64;
    let t = (8 * i) as u64;
    lemma_le_value_fits(rest);
    if i == b.len() - 1 {
        assert((((a | (l << s)) >> s) & 0xffu64) == l) by (bit_vector)
            requires
                a >> s == 0,
                l < 256,
                s <= 56,
        ;
    } else {
        lemma_le_byte(rest, i);
        assert((((a | (l << s)) >> t) & 0xffu64) == (a >> t) & 0xffu64) by (bit_vector)
            requires
                t + 8 <= s,
                s <= 56,
        ;
    }
}

/// The native bytes of a pattern, read back, give the pattern.
pub proof fn lemma_native_value_of_bytes(x: u64, n: nat)
    requires
        n <= 8,
        fits_bytes(x, n),
    ensures
        native_value(native_bytes(x, n)) == x,
        native_bytes(x, n).len() == n,
{
    lemma_le_value_of_bytes(x, n);
    assert(le_bytes(x, n).reverse().reverse() =~= le_bytes(x, n));
}

/// The pattern that native bytes hold, written out, gives those bytes.
pub proof fn lemma_native_bytes_of_value(b: Seq<u8>)
    requires
        b.len() <= 8,
    ensures
        native_bytes(native_value(b), b.len()) == b,
        fits_bytes(native_value(b), b.len()),
{
    lemma_le_bytes_of_value(b);
    lemma_le_bytes_of_value(b.reverse());
    lemma_le_value_fits(b);
    lemma_le_value_fits(b.reverse());
    assert(b.reverse().reverse() =~= b);
}

/// Zero is written as zero bytes, in either order.
pub proof fn lemma_native_bytes_zero(n: nat)
    ensures
        native_bytes(0, n) == Seq::new(n, |i: int| 0u8),
{
    assert forall|i: int| 0 <= i < n implies le_bytes(0, n)[i] == 0u8 by {
        let s = (8 * i) as u64;
        assert((0u64 >> s) & 0xffu64 == 0) by (bit_vector);
    }
    assert(le_bytes(0, n) =~= Seq::new(n, |i: int| 0u8));
    assert(le_bytes(0, n).reverse() =~= Seq::new(n, |i: int| 0u8));
}

/// `u16::to_ne_bytes`: the two bytes of `x` as they lie in memory, which is
/// the little-endian order on a little-endian machine and the reverse on a
/// big-endian one.
#[verifier::external_body]
fn u16_to_ne_bytes(x: u16) -> (r: [u8; 2])
    ensures
        r@ == native_bytes(x as u64, 2),
{
    x.to_ne_bytes()
}

/// Whether this machine stores the least significant byte first.
pub fn is_little_endian() -> (r: bool)
    ensures
        r == little_endian(),
{
    let probe = u16_to_ne_bytes(1);
    proof {
        assert(((1u64 >> 0u64) & 0xffu64) as u8 == 1u8) by (bit_vector);
        assert(((1u64 >> 8u64) & 0xffu64) as u8 == 0u8) by (bit_vector);
        assert(le_bytes(1, 2)[0] == 1u8);
        assert(le_bytes(1, 2)[1] == 0u8);
        assert(le_bytes(1, 2).reverse()[0] == 0u8);
    }
    probe[0] == 1
}

/// Appends the `n` low bytes of `x` to `out` in the machine's byte order.
pub fn put_native(x: u64, n: usize, out: &mut Vec<u8>)
    requires
        n <= 8,
    ensures
        final(out)@ == old(out)@ + native_bytes(x, n as nat),
{
    let little = is_little_endian();
    let ghost le = le_bytes(x, n as nat);
    let mut k: usize = 0;
    while k < n
        invariant
            k <= n <= 8,
            little == little_endian(),
            le == le_bytes(x, n as nat),
            out@ == old(out)@ + native_bytes(x, n as nat).take(k as int),
        decreases n - k,
    {
        let i: usize = if little {
            k
        } else {
            n - 1 - k
        };
        let shift: u64 = (8 * i) as u64;
        let word: u64 = (x >> shift) & 0xffu64;
        proof {
            assert((x >> shift) & 0xffu64 < 256) by (bit_vector);
        }
        let byte: u8 = word as u8;
        out.push(byte);
        proof {
            assert(native_bytes(x, n as nat)[k as int] == byte);
            assert(native_bytes(x, n as nat).take(k + 1) =~= native_bytes(x, n as nat).take(
                k as int,
            ).push(byte));
        }
        k = k + 1;
    }
    proof {
        assert(native_bytes(x, n as nat).take(n as int) =~= native_bytes(x, n as nat));
    }
}

/// Reads the pattern that the `n` bytes of `data` from `at` on hold in the
/// machine's byte order.
pub fn get_native(data: &[u8], at: usize, n: usize) -> (r: u64)
    requires
        n <= 8,
        at + n <= data@.len(),
    ensures
        r == native_value(data@.subrange(at as int, at + n)),
{
    let little = is_little_endian();
    let total: usize = data.len();
    let ghost b = data@.subrange(at as int, at + n);
    let ghost src = if little {
        b
    } else {
        b.reverse()
    };
    let mut acc: u64 = 0;
    let mut k: usize = 0;
    while k < n
        invariant
            k <= n <= 8,
            at + n <= total,
            total == data@.len(),
            little == little_endian(),
            b == data@.subrange(at as int, at + n),
            src == if little {
                b
            } else {
                b.reverse()
            },
            acc == le_value(src.take(k as int)),
        decreases n - k,
    {
        let i: usize = if little {
            k
        } else {
            n - 1 - k
        };
        let byte: u8 = data[at + i];
        let shift: u64 = (8 * k) as u64;
        proof {
            assert(src[k as int] == byte);
            assert(src.take(k + 1).drop_last() =~= src.take(k as int));
        }
        acc = acc | ((byte as u64) << shift);
        k = k + 1;
    }
    proof {
        assert(src.take(n as int) =~= src);
    }
    acc
}

/// The two's-complement bit pattern of a 128-bit signed number.
pub open spec fn i128_bits(v: i128) -> u128 {
    if v >= 0 {
        v as u128
    } else {
        (0xffff_ffff_ffff_ffff_ffff_ffff_ffff_ffffu128 + 1 + v) as u128
    }
}

/// The 16 bytes of `x`, least significant first.
pub open spec fn le_bytes_128(x: u128) -> Seq<u8> {
    Seq::new(16, |i: int| ((x >> ((8 * i) as u128)) & 0xffu128) as u8)
}

/// The 16 little-endian bytes of a 128-bit signed number.
pub fn i128_to_le_bytes(v: i128) -> (r: Vec<u8>)
    ensures
        r@ == le_bytes_128(i128_bits(v)),
        r@.len() == 16,
{
    let x: u128 = if v >= 0 {
        v as u128
    } else {
        0xffff_ffff_ffff_ffff_ffff_ffff_ffff_ffffu128 - ((-(v + 1)) as u128)
    };
    let mut out: Vec<u8> = Vec::new();
    let mut i: usize = 0;
    while i < 16
        invariant
            i <= 16,
            x == i128_bits(v),
            out@ == le_bytes_128(x).take(i as int),
        decreases 16 - i,
    {
        let shift: u128 = (8 * i) as u128;
        let word: u128 = (x >> shift) & 0xffu128;
        proof {
            assert((x >> shift) & 0xffu128 < 256) by (bit_vector);
        }
        out.push(word as u8);
        proof {
            assert(out@ =~= le_bytes_128(x).take(i + 1));
        }
        i = i + 1;
    }
    proof {
        assert(le_bytes_128(x).take(16) =~= le_bytes_128(x));
    }
    out
}

} // verus!
