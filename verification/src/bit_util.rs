//! Bit-level helpers for bit-packed buffers. Bits are numbered LSB-first:
//! bit `i` of a byte sequence lives in byte `i / 8` at position `i % 8`.

use vstd::prelude::*;

verus! {

/// The largest byte length a growable buffer is asked to hold. It leaves room
/// for rounding a capacity up, for doubling it, and for counting it in bits.
pub const MAX_BYTES: usize = usize::MAX / 16;

/// The largest number of bits a bit-packed buffer is asked to hold.
pub const MAX_BITS: usize = MAX_BYTES * 4;

/// Bit `i` of `bytes`.
pub open spec fn bit_at(bytes: Seq<u8>, i: int) -> bool
    recommends
        0 <= i < 8 * bytes.len(),
{
    (bytes[i / 8] >> ((i % 8) as u8)) & 1u8 == 1u8
}

/// The first `n` bits of `bytes`.
pub open spec fn bits_of(bytes: Seq<u8>, n: nat) -> Seq<bool>
    recommends
        n <= 8 * bytes.len(),
{
    Seq::new(n, |i: int| bit_at(bytes, i))
}

/// How many entries of `bits` are `true`.
pub open spec fn count_true(bits: Seq<bool>) -> nat
    decreases bits.len(),
{
    if bits.len() == 0 {
        0
    } else {
        count_true(bits.drop_last()) + if bits.last() {
            1nat
        } else {
            0nat
        }
    }
}

/// Bit `i` of `bits` as a number; 0 past the end.
pub open spec fn bit_value(bits: Seq<bool>, i: int) -> u8 {
    if 0 <= i < bits.len() && bits[i] {
        1u8
    } else {
        0u8
    }
}

/// Byte `k` of the packed form of `bits`.
pub open spec fn pack_byte(bits: Seq<bool>, k: int) -> u8 {
    bit_value(bits, 8 * k) | (bit_value(bits, 8 * k + 1) << 1u8) | (bit_value(bits, 8 * k + 2)
        << 2u8) | (bit_value(bits, 8 * k + 3) << 3u8) | (bit_value(bits, 8 * k + 4) << 4u8) | (
    bit_value(bits, 8 * k + 5) << 5u8) | (bit_value(bits, 8 * k + 6) << 6u8) | (bit_value(
        bits,
        8 * k + 7,
    ) << 7u8)
}

/// `bits` packed LSB-first into `n` bytes; bits past the end of `bits` are
/// off.
#[verifier::opaque]
pub open spec fn pack_bits(bits: Seq<bool>, n: nat) -> Seq<u8> {
    Seq::new(n, |k: int| pack_byte(bits, k))
}

/// Whether `bytes` holds exactly `bits`: bit `i` is on iff `bits[i]` is
/// `true`, and every bit past the end of `bits` is off.
pub open spec fn holds_bits(bytes: Seq<u8>, bits: Seq<bool>) -> bool {
    &&& bits.len() <= 8 * bytes.len()
    &&& forall|i: int|
        0 <= i < 8 * bytes.len() ==> #[trigger] bit_at(bytes, i) == (i < bits.len() && bits[i])
}

/// `value` divided by 8, rounded up.
pub open spec fn spec_ceil8(value: nat) -> nat {
    (value + 7) / 8
}

/// `value` rounded up to the next multiple of 64.
pub open spec fn spec_round64(value: nat) -> nat {
    ((value + 63) / 64) * 64
}

/// `byte` with bit `k` switched on.
pub open spec fn with_bit(byte: u8, k: u8) -> u8 {
    byte | (1u8 << k)
}

/// No more entries are `true` than there are entries.
pub proof fn lemma_count_true_bounds(bits: Seq<bool>)
    ensures
        count_true(bits) <= bits.len(),
    decreases bits.len(),
{
    if bits.len() > 0 {
        lemma_count_true_bounds(bits.drop_last());
    }
}

/// One more entry counts one more if it is `true`.
pub proof fn lemma_count_true_push(bits: Seq<bool>, b: bool)
    ensures
        count_true(bits.push(b)) == count_true(bits) + if b {
            1nat
        } else {
            0nat
        },
{
    assert(bits.push(b).drop_last() =~= bits);
}

/// The counts of two sequences add up to the count of the two joined.
pub proof fn lemma_count_true_concat(a: Seq<bool>, b: Seq<bool>)
    ensures
        count_true(a + b) == count_true(a) + count_true(b),
    decreases b.len(),
{
    if b.len() == 0 {
        assert(a + b =~= a);
    } else {
        lemma_count_true_concat(a, b.drop_last());
        assert((a + b).drop_last() =~= a + b.drop_last());
    }
}

/// A sequence that holds only `true` counts its own length.
pub proof fn lemma_count_true_all(bits: Seq<bool>)
    requires
        forall|i: int| 0 <= i < bits.len() ==> bits[i],
    ensures
        count_true(bits) == bits.len(),
    decreases bits.len(),
{
    if bits.len() > 0 {
        lemma_count_true_all(bits.drop_last());
    }
}

/// A sequence that counts its own length holds only `true`.
pub proof fn lemma_count_true_full(bits: Seq<bool>)
    requires
        count_true(bits) == bits.len(),
    ensures
        forall|i: int| 0 <= i < bits.len() ==> bits[i],
    decreases bits.len(),
{
    if bits.len() > 0 {
        lemma_count_true_bounds(bits.drop_last());
        lemma_count_true_full(bits.drop_last());
        assert forall|i: int| 0 <= i < bits.len() implies bits[i] by {
            if i < bits.len() - 1 {
                assert(bits.drop_last()[i] == bits[i]);
            }
        }
    }
}

/// Bits that are all `false` count zero.
pub proof fn lemma_count_true_none(bits: Seq<bool>)
    requires
        forall|i: int| 0 <= i < bits.len() ==> !bits[i],
    ensures
        count_true(bits) == 0,
    decreases bits.len(),
{
    if bits.len() > 0 {
        lemma_count_true_none(bits.drop_last());
    }
}

/// Switching bit `k` of a byte on changes that bit and no other.
pub proof fn lemma_with_bit(byte: u8, k: u8, j: u8)
    requires
        k < 8,
        j < 8,
    ensures
        ((with_bit(byte, k) >> j) & 1u8 == 1u8) == (j == k || (byte >> j) & 1u8 == 1u8),
{
    assert(((byte | (1u8 << k)) >> j) & 1u8 == 1u8 <==> (j == k || (byte >> j) & 1u8 == 1u8))
        by (bit_vector)
        requires
            k < 8,
            j < 8,
    ;
}

/// A zero byte has no bit set.
pub proof fn lemma_zero_byte_bits(j: u8)
    requires
        j < 8,
    ensures
        (0u8 >> j) & 1u8 == 0u8,
{
    assert((0u8 >> j) & 1u8 == 0u8) by (bit_vector);
}

/// Two bytes with the same eight bits are the same byte.
pub proof fn lemma_byte_by_bits(a: u8, b: u8)
    requires
        forall|j: u8| j < 8 ==> ((a >> j) & 1u8 == 1u8) == ((b >> j) & 1u8 == 1u8),
    ensures
        a == b,
{
    assert(((a >> 0u8) & 1u8 == 1u8) == ((b >> 0u8) & 1u8 == 1u8));
    assert(((a >> 1u8) & 1u8 == 1u8) == ((b >> 1u8) & 1u8 == 1u8));
    assert(((a >> 2u8) & 1u8 == 1u8) == ((b >> 2u8) & 1u8 == 1u8));
    assert(((a >> 3u8) & 1u8 == 1u8) == ((b >> 3u8) & 1u8 == 1u8));
    assert(((a >> 4u8) & 1u8 == 1u8) == ((b >> 4u8) & 1u8 == 1u8));
    assert(((a >> 5u8) & 1u8 == 1u8) == ((b >> 5u8) & 1u8 == 1u8));
    assert(((a >> 6u8) & 1u8 == 1u8) == ((b >> 6u8) & 1u8 == 1u8));
    assert(((a >> 7u8) & 1u8 == 1u8) == ((b >> 7u8) & 1u8 == 1u8));
    assert(a == b) by (bit_vector)
        requires
            ((a >> 0u8) & 1u8 == 1u8) == ((b >> 0u8) & 1u8 == 1u8),
            ((a >> 1u8) & 1u8 == 1u8) == ((b >> 1u8) & 1u8 == 1u8),
            ((a >> 2u8) & 1u8 == 1u8) == ((b >> 2u8) & 1u8 == 1u8),
            ((a >> 3u8) & 1u8 == 1u8) == ((b >> 3u8) & 1u8 == 1u8),
            ((a >> 4u8) & 1u8 == 1u8) == ((b >> 4u8) & 1u8 == 1u8),
            ((a >> 5u8) & 1u8 == 1u8) == ((b >> 5u8) & 1u8 == 1u8),
            ((a >> 6u8) & 1u8 == 1u8) == ((b >> 6u8) & 1u8 == 1u8),
            ((a >> 7u8) & 1u8 == 1u8) == ((b >> 7u8) & 1u8 == 1u8),
    ;
}

/// Byte sequences of one length that agree on every bit are equal: a packed
/// buffer is pinned down by its length and its bits.
pub proof fn lemma_bytes_by_bits(a: Seq<u8>, b: Seq<u8>)
    requires
        a.len() == b.len(),
        forall|i: int| 0 <= i < 8 * a.len() ==> bit_at(a, i) == bit_at(b, i),
    ensures
        a == b,
{
    assert forall|k: int| 0 <= k < a.len() implies a[k] == b[k] by {
        assert forall|j: u8| j < 8 implies ((a[k] >> j) & 1u8 == 1u8) == ((b[k] >> j) & 1u8
            == 1u8) by {
            let i = 8 * k + j as int;
            assert(i / 8 == k && i % 8 == j as int);
            assert(bit_at(a, i) == bit_at(b, i));
        }
        lemma_byte_by_bits(a[k], b[k]);
    }
    assert(a =~= b);
}

/// The packed form of `bits` holds `bits`.
pub proof fn lemma_pack_bits(bits: Seq<bool>, n: nat)
    requires
        bits.len() <= 8 * n,
    ensures
        holds_bits(pack_bits(bits, n), bits),
        pack_bits(bits, n).len() == n,
{
    reveal(pack_bits);
    let bytes = pack_bits(bits, n);
    assert forall|i: int| 0 <= i < 8 * bytes.len() implies #[trigger] bit_at(bytes, i) == (i
        < bits.len() && bits[i]) by {
        let k = i / 8;
        let j = (i % 8) as u8;
        let b0 = bit_value(bits, 8 * k);
        let b1 = bit_value(bits, 8 * k + 1);
        let b2 = bit_value(bits, 8 * k + 2);
        let b3 = bit_value(bits, 8 * k + 3);
        let b4 = bit_value(bits, 8 * k + 4);
        let b5 = bit_value(bits, 8 * k + 5);
        let b6 = bit_value(bits, 8 * k + 6);
        let b7 = bit_value(bits, 8 * k + 7);
        let bj = bit_value(bits, i);
        assert(bj == if j == 0 {
            b0
        } else if j == 1 {
            b1
        } else if j == 2 {
            b2
        } else if j == 3 {
            b3
        } else if j == 4 {
            b4
        } else if j == 5 {
            b5
        } else if j == 6 {
            b6
        } else {
            b7
        });
        assert((((b0 | (b1 << 1u8) | (b2 << 2u8) | (b3 << 3u8) | (b4 << 4u8) | (b5 << 5u8) | (b6
            << 6u8) | (b7 << 7u8)) >> j) & 1u8 == 1u8) == ((if j == 0 {
            b0
        } else if j == 1 {
            b1
        } else if j == 2 {
            b2
        } else if j == 3 {
            b3
        } else if j == 4 {
            b4
        } else if j == 5 {
            b5
        } else if j == 6 {
            b6
        } else {
            b7
        }) == 1u8)) by (bit_vector)
            requires
                j < 8,
                b0 <= 1,
                b1 <= 1,
                b2 <= 1,
                b3 <= 1,
                b4 <= 1,
                b5 <= 1,
                b6 <= 1,
                b7 <= 1,
        ;
    }
}

/// Bytes that hold `bits` are the packed form of `bits`.
pub proof fn lemma_packed(bytes: Seq<u8>, bits: Seq<bool>)
    requires
        holds_bits(bytes, bits),
    ensures
        bytes == pack_bits(bits, bytes.len()),
{
    lemma_pack_bits(bits, bytes.len());
    lemma_bytes_by_bits(bytes, pack_bits(bits, bytes.len()));
}

/// Bytes that hold `bits` have as many bits on as `bits` has entries that
/// are `true`.
pub proof fn lemma_count_held(bytes: Seq<u8>, bits: Seq<bool>)
    requires
        holds_bits(bytes, bits),
    ensures
        count_true(bits_of(bytes, 8 * bytes.len())) == count_true(bits),
        count_true(bits_of(bytes, bits.len())) == count_true(bits),
        bits_of(bytes, bits.len()) == bits,
{
    let all = bits_of(bytes, 8 * bytes.len());
    let rest = all.skip(bits.len() as int);
    assert(bits_of(bytes, bits.len()) =~= bits);
    assert(all =~= bits + rest);
    lemma_count_true_concat(bits, rest);
    lemma_count_true_none(rest);
}

/// Returns `value / divisor`, rounded up.
pub fn ceil(value: usize, divisor: usize) -> (r: usize)
    requires
        divisor > 0,
    ensures
        r == (value + divisor - 1) / (divisor as int),
        divisor == 8 ==> r == spec_ceil8(value as nat),
{
    let quot: usize = value / divisor;
    let rem: usize = value % divisor;
    proof {
        assert(value == quot * divisor + rem) by (nonlinear_arith)
            requires
                quot == value / divisor,
                rem == value % divisor,
                divisor > 0,
        ;
        if rem > 0 {
            assert((quot * divisor + rem + divisor - 1) / (divisor as int) == quot + 1)
                by (nonlinear_arith)
                requires
                    0 < rem < divisor,
            ;
            assert(quot < usize::MAX) by (nonlinear_arith)
                requires
                    value == quot * divisor + rem,
                    rem > 0,
                    divisor > 0,
                    value <= usize::MAX,
            ;
        } else {
            assert((quot * divisor + divisor - 1) / (divisor as int) == quot) by (nonlinear_arith)
                requires
                    divisor > 0,
            ;
        }
    }
    if rem > 0 {
        quot + 1
    } else {
        quot
    }
}

/// Rounds `num` up to the next multiple of 64.
pub fn round_upto_multiple_of_64(num: usize) -> (r: usize)
    requires
        num <= usize::MAX - 63,
    ensures
        r == spec_round64(num as nat),
        r >= num,
        r < num + 64,
        r % 64 == 0,
{
    ((num + 63) / 64) * 64
}

/// Whether bit `i` of `data` is set.
pub fn get_bit(data: &[u8], i: usize) -> (r: bool)
    requires
        i < 8 * data@.len(),
    ensures
        r == bit_at(data@, i as int),
{
    let byte: u8 = data[i / 8];
    let k: u8 = (i % 8) as u8;
    (byte >> k) & 1u8 == 1u8
}

/// Switches bit `i` of `data` on.
pub fn set_bit(data: &mut Vec<u8>, i: usize)
    requires
        i < 8 * old(data)@.len(),
    ensures
        final(data)@ == old(data)@.update(
            i as int / 8,
            with_bit(old(data)@[i as int / 8], (i % 8) as u8),
        ),
        final(data)@.len() == old(data)@.len(),
        forall|j: int|
            0 <= j < 8 * old(data)@.len() ==> #[trigger] bit_at(final(data)@, j) == (j == i
                || bit_at(old(data)@, j)),
{
    let k: u8 = (i % 8) as u8;
    let byte: u8 = data[i / 8];
    data[i / 8] = byte | (1u8 << k);
    proof {
        assert forall|j: int| 0 <= j < 8 * old(data)@.len() implies #[trigger] bit_at(data@, j)
            == (j == i || bit_at(old(data)@, j)) by {
            if j / 8 == i as int / 8 {
                lemma_with_bit(byte, k, (j % 8) as u8);
            }
        }
    }
}

/// Counts the set bits of one byte.
fn count_byte_bits(byte: u8) -> (r: usize)
    ensures
        r == count_true(Seq::new(8, |j: int| (byte >> (j as u8)) & 1u8 == 1u8)),
{
    let ghost bits = Seq::new(8, |j: int| (byte >> (j as u8)) & 1u8 == 1u8);
    let mut n: usize = 0;
    let mut j: u8 = 0;
    while j < 8
        invariant
            j <= 8,
            n <= j,
            n == count_true(bits.take(j as int)),
            bits == Seq::new(8, |j: int| (byte >> (j as u8)) & 1u8 == 1u8),
        decreases 8 - j,
    {
        proof {
            assert(bits.take(j as int + 1).drop_last() =~= bits.take(j as int));
        }
        if (byte >> j) & 1u8 == 1u8 {
            n = n + 1;
        }
        j = j + 1;
    }
    proof {
        assert(bits.take(8) =~= bits);
    }
    n
}

/// The number of set bits in `data`.
pub fn count_set_bits(data: &[u8]) -> (r: usize)
    requires
        8 * data@.len() <= usize::MAX,
    ensures
        r == count_true(bits_of(data@, 8 * data@.len())),
{
    let mut n: usize = 0;
    let mut k: usize = 0;
    while k < data.len()
        invariant
            k <= data@.len(),
            8 * data@.len() <= usize::MAX,
            n <= 8 * k,
            n == count_true(bits_of(data@, 8 * (k as nat))),
        decreases data@.len() - k,
    {
        let byte: u8 = data[k];
        let c: usize = count_byte_bits(byte);
        proof {
            lemma_count_true_bounds(Seq::new(8, |j: int| (byte >> (j as u8)) & 1u8 == 1u8));
            let low = bits_of(data@, 8 * (k as nat));
            let high = Seq::new(8, |j: int| (byte >> (j as u8)) & 1u8 == 1u8);
            assert(c <= 8);
            assert forall|i: int| 0 <= i < 8 * (k + 1) implies #[trigger] (low + high)[i]
                == bit_at(data@, i) by {
                if i >= 8 * k {
                    assert((i - 8 * k) == i % 8);
                    assert(i / 8 == k);
                }
            }
            assert(bits_of(data@, 8 * ((k + 1) as nat)) =~= low + high);
            lemma_count_true_concat(low, high);
        }
        n = n + c;
        k = k + 1;
    }
    n
}

} // verus!
