//! Bits of a byte buffer, as mathematics: which binary digit of which byte a
//! bit index names, how many bytes a count of bits takes, and what a write of
//! one bit does to a buffer.

use vstd::prelude::*;

verus! {

/// The weight of binary digit `k` of a byte: two to the power `k`.
pub open spec fn digit_weight(k: int) -> int
    recommends
        0 <= k < 8,
{
    if k == 0 {
        1
    } else if k == 1 {
        2
    } else if k == 2 {
        4
    } else if k == 3 {
        8
    } else if k == 4 {
        16
    } else if k == 5 {
        32
    } else if k == 6 {
        64
    } else {
        128
    }
}

/// Binary digit `k` of `b` is one. Digit 0 is the least significant.
pub open spec fn byte_bit(b: u8, k: int) -> bool {
    0 <= k < 8 && (b as int / digit_weight(k)) % 2 == 1
}

/// `b` with binary digit `k` made one (`val`) or zero: the digit's weight is
/// added or taken away where the digit differs from `val`.
pub open spec fn byte_with(b: u8, k: int, val: bool) -> u8 {
    if !(0 <= k < 8) || byte_bit(b, k) == val {
        b
    } else if val {
        (b + digit_weight(k)) as u8
    } else {
        (b - digit_weight(k)) as u8
    }
}

/// Bit `i` of a buffer: digit `i % 8` of byte `i / 8`. A bit that lies
/// outside the buffer is unset.
pub open spec fn bit_at(bytes: Seq<u8>, i: int) -> bool {
    0 <= i && i / 8 < bytes.len() && byte_bit(bytes[i / 8], i % 8)
}

/// The least number of bytes that hold `bits` bits.
pub open spec fn bytes_for(bits: int) -> int {
    (bits + 7) / 8
}

/// `n` zero bytes; none where `n` is not positive.
pub open spec fn zeros(n: int) -> Seq<u8> {
    Seq::new(
        if n > 0 {
            n as nat
        } else {
            0
        },
        |j: int| 0u8,
    )
}

/// `bytes`, with zero bytes appended until it has at least `n` bytes.
pub open spec fn padded(bytes: Seq<u8>, n: int) -> Seq<u8> {
    bytes + zeros(n - bytes.len())
}

/// The buffer after a write of `val` to bit `i`: grown by zero bytes to end
/// with byte `i / 8` where it was shorter, and with that byte's digit `i % 8`
/// made `val`.
pub open spec fn with_bit(bytes: Seq<u8>, i: int, val: bool) -> Seq<u8>
    recommends
        0 <= i,
{
    let grown = padded(bytes, i / 8 + 1);
    grown.update(i / 8, byte_with(grown[i / 8], i % 8, val))
}

/// The mask of digit `k` of a byte is the digit's weight.
proof fn lemma_mask_is_weight(k: u8)
    requires
        k < 8,
    ensures
        (1u8 << k) == digit_weight(k as int),
{
    assert(1u8 << 0u8 == 1 && 1u8 << 1u8 == 2 && 1u8 << 2u8 == 4 && 1u8 << 3u8 == 8 && 1u8 << 4u8
        == 16 && 1u8 << 5u8 == 32 && 1u8 << 6u8 == 64 && 1u8 << 7u8 == 128) by (bit_vector);
}

/// Shifting and masking reads binary digit `k`.
pub proof fn lemma_shift_reads_bit(b: u8, k: u8)
    requires
        k < 8,
    ensures
        ((b >> k) & 1 != 0) == byte_bit(b, k as int),
{
    lemma_mask_is_weight(k);
    assert(((b >> k) & 1 != 0) == ((b / (1u8 << k)) % 2 == 1)) by (bit_vector)
        requires
            k < 8,
    ;
}

/// Or-ing in the mask of digit `k` makes that digit one.
pub proof fn lemma_or_is_byte_with(b: u8, k: u8)
    requires
        k < 8,
    ensures
        (b | (1u8 << k)) == byte_with(b, k as int, true),
{
    lemma_shift_reads_bit(b, k);
    lemma_mask_is_weight(k);
    assert((b >> k) & 1 != 0 ==> (b | (1u8 << k)) == b) by (bit_vector)
        requires
            k < 8,
    ;
    assert((b >> k) & 1 == 0 ==> (b | (1u8 << k)) == b + (1u8 << k)) by (bit_vector)
        requires
            k < 8,
    ;
}

/// And-ing with the complement of the mask of digit `k` makes that digit
/// zero.
pub proof fn lemma_and_is_byte_with(b: u8, k: u8)
    requires
        k < 8,
    ensures
        (b & !(1u8 << k)) == byte_with(b, k as int, false),
{
    lemma_shift_reads_bit(b, k);
    lemma_mask_is_weight(k);
    assert((b >> k) & 1 == 0 ==> (b & !(1u8 << k)) == b) by (bit_vector)
        requires
            k < 8,
    ;
    assert((b >> k) & 1 != 0 ==> (b & !(1u8 << k)) == b - (1u8 << k)) by (bit_vector)
        requires
            k < 8,
    ;
}

/// A byte with digit `k` made `val` has `val` at digit `k` and every other
/// digit as before.
pub proof fn lemma_byte_with_bits(b: u8, k: int, val: bool, j: int)
    requires
        0 <= k < 8,
    ensures
        byte_bit(byte_with(b, k, val), j) == (if j == k {
            val
        } else {
            byte_bit(b, j)
        }),
{
    if 0 <= j < 8 {
        let s: u8 = k as u8;
        let d: u8 = j as u8;
        lemma_shift_reads_bit(b, d);
        if val {
            lemma_or_is_byte_with(b, s);
            lemma_shift_reads_bit(b | (1u8 << s), d);
            assert((((b | (1u8 << s)) >> d) & 1 != 0) == (d == s || ((b >> d) & 1 != 0)))
                by (bit_vector)
                requires
                    s < 8,
                    d < 8,
            ;
        } else {
            lemma_and_is_byte_with(b, s);
            lemma_shift_reads_bit(b & !(1u8 << s), d);
            assert((((b & !(1u8 << s)) >> d) & 1 != 0) == (d != s && ((b >> d) & 1 != 0)))
                by (bit_vector)
                requires
                    s < 8,
                    d < 8,
            ;
        }
    }
}

/// No digit of zero is one.
pub proof fn lemma_zero_byte(k: int)
    ensures
        !byte_bit(0u8, k),
{
}

/// Every bit of a buffer of zero bytes is unset.
pub proof fn lemma_zeros_unset(n: int, i: int)
    ensures
        !bit_at(zeros(n), i),
{
    lemma_zero_byte(i % 8);
}

/// Appended zero bytes change no bit of a buffer.
pub proof fn lemma_padding_keeps_bits(bytes: Seq<u8>, n: int, i: int)
    ensures
        bit_at(padded(bytes, n), i) == bit_at(bytes, i),
{
    let p = padded(bytes, n);
    if 0 <= i && i / 8 < p.len() {
        if i / 8 >= bytes.len() {
            assert(p[i / 8] == 0u8);
            lemma_zero_byte(i % 8);
        } else {
            assert(p[i / 8] == bytes[i / 8]);
        }
    }
}

/// A write grows the buffer to end with the written byte where it was
/// shorter, and otherwise keeps its length.
pub proof fn lemma_with_bit_len(bytes: Seq<u8>, i: int, val: bool)
    requires
        0 <= i,
    ensures
        with_bit(bytes, i, val).len() == if bytes.len() > i / 8 {
            bytes.len() as int
        } else {
            i / 8 + 1
        },
        with_bit(bytes, i, val).len() >= bytes.len(),
{
}

/// After a write of `val` to bit `i`, bit `i` is `val` and every other bit
/// is as before.
pub proof fn lemma_with_bit_bits(bytes: Seq<u8>, i: int, val: bool, j: int)
    requires
        0 <= i,
    ensures
        bit_at(with_bit(bytes, i, val), j) == (if j == i {
            val
        } else {
            bit_at(bytes, j)
        }),
{
    let grown = padded(bytes, i / 8 + 1);
    lemma_padding_keeps_bits(bytes, i / 8 + 1, j);
    lemma_byte_with_bits(grown[i / 8], i % 8, val, j % 8);
}

/// A write repeated changes nothing: the second write of `val` to bit `i`
/// leaves the buffer, and so its length and bit `i`, as the first left them.
pub proof fn lemma_with_bit_idempotent(bytes: Seq<u8>, i: int, val: bool)
    requires
        0 <= i,
    ensures
        with_bit(with_bit(bytes, i, val), i, val) == with_bit(bytes, i, val),
        with_bit(with_bit(bytes, i, val), i, val).len() == with_bit(bytes, i, val).len(),
        bit_at(with_bit(with_bit(bytes, i, val), i, val), i) == val,
{
    let once = with_bit(bytes, i, val);
    lemma_with_bit_bits(bytes, i, val, i);
    assert(byte_bit(once[i / 8], i % 8) == val);
    assert(padded(once, i / 8 + 1) =~= once);
    assert(with_bit(once, i, val) =~= once);
}

} // verus!
