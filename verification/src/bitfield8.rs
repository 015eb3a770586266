//! The packed bit store.

use vstd::prelude::*;
use crate::bits::{
    bit_at, bytes_for, lemma_and_is_byte_with, lemma_or_is_byte_with, lemma_shift_reads_bit,
    lemma_padding_keeps_bits, lemma_with_bit_bits, lemma_with_bit_len, lemma_zeros_unset, padded,
    with_bit, zeros,
};
use crate::zlib::{zlib_compress, zlib_compressed, zlib_decoded, zlib_decompress};

verus! {

/// The level, on the scale from 0 to 9, at which a store's buffer is
/// compressed.
pub const COMPRESSION_LEVEL: u32 = 6;

/// Why packed bytes gave no store.
#[derive(Debug, Clone, Copy, PartialEq, Eq, Structural)]
pub enum DecodeError {
    /// The bytes are not a well-formed zlib stream.
    Malformed,
    /// No bit count was declared, and the bit count of the decoded bytes is
    /// more than `usize` holds.
    LengthOverflow,
}

/// The bit count that a store rebuilt from `decoded` reports: the declared
/// one, or else the number of bits in `decoded`.
pub open spec fn resolved_bits(decoded: Seq<u8>, declared: Option<usize>) -> int {
    match declared {
        Some(bits) => bits as int,
        None => (decoded.len() * 8) as int,
    }
}

/// The buffer of a store rebuilt from `decoded`: `decoded`, with zero bytes
/// appended where it is too short for the resolved bit count.
pub open spec fn rebuilt_bytes(decoded: Seq<u8>, declared: Option<usize>) -> Seq<u8> {
    padded(decoded, bytes_for(resolved_bits(decoded, declared)))
}

/// What rebuilding a store from decoded bytes and an optional declared bit
/// count gives: the reported capacity and the buffer, or the error where
/// `usize` cannot hold the resolved bit count.
pub open spec fn rebuilt(decoded: Seq<u8>, declared: Option<usize>) -> Result<
    (int, Seq<u8>),
    DecodeError,
> {
    if resolved_bits(decoded, declared) > usize::MAX {
        Err(DecodeError::LengthOverflow)
    } else {
        Ok((resolved_bits(decoded, declared), rebuilt_bytes(decoded, declared)))
    }
}

/// What unpacking a zlib stream with an optional declared bit count gives:
/// the reported capacity and the buffer of the store, or the error.
pub open spec fn unpacked(packed: Seq<u8>, declared: Option<usize>) -> Result<
    (int, Seq<u8>),
    DecodeError,
> {
    match zlib_decoded(packed) {
        None => Err(DecodeError::Malformed),
        Some(decoded) => rebuilt(decoded, declared),
    }
}

/// A growable store of bits, eight to a byte, least significant digit first.
///
/// `length` is the store's reported capacity. A fresh store reports the
/// number of bytes it allocated; every `set` makes it the number of bits in
/// the buffer; a store rebuilt from packed bytes reports the bit count it
/// was rebuilt with.
#[derive(Debug)]
pub struct BitField8 {
    pub length: usize,
    values: Vec<u8>,
}

impl BitField8 {
    /// The byte buffer.
    pub closed spec fn bytes(&self) -> Seq<u8> {
        self.values@
    }

    /// The reported capacity: the field `length`.
    pub closed spec fn capacity(&self) -> usize {
        self.length
    }

    /// Bit `i` of the store. A bit outside the buffer is unset.
    pub open spec fn bit(&self, i: int) -> bool {
        bit_at(self.bytes(), i)
    }

    /// The number of bits in the buffer fits in `usize`.
    pub open spec fn wf(&self) -> bool {
        self.bytes().len() * 8 <= usize::MAX
    }

    /// Unpacking `packed` with `declared` bits gives a store that reports
    /// `declared` and has every bit as this store has it.
    pub open spec fn restored_from(&self, packed: Seq<u8>, declared: usize) -> bool {
        &&& unpacked(packed, Some(declared)) matches Ok((bits, bytes))
        &&& bits == declared
        &&& forall|i: int| bit_at(bytes, i) == self.bit(i)
    }

    /// A store of `length` bits, all unset: the least number of zero bytes
    /// that hold them. It reports that number of bytes as its `length`.
    pub fn new(length: usize) -> (r: BitField8)
        ensures
            r.bytes() == zeros(bytes_for(length as int)),
            r.capacity() == bytes_for(length as int),
            forall|i: int| !r.bit(i),
    {
        let rest: usize = if length % 8 == 0 { 0 } else { 1 };
        let length: usize = length / 8 + rest;
        let values: Vec<u8> = vec![0u8; length];
        proof {
            assert(values@ =~= zeros(length as int));
            assert forall|i: int| !bit_at(values@, i) by {
                lemma_zeros_unset(length as int, i);
            }
        }
        BitField8 { length, values }
    }

    /// Reads bit `i`. A bit outside the buffer reads as unset.
    pub fn get(&self, i: usize) -> (r: bool)
        ensures
            r == self.bit(i as int),
    {
        let index: usize = i / 8;
        let bit: u8 = (i % 8) as u8;
        if index >= self.values.len() {
            false
        } else {
            proof {
                lemma_shift_reads_bit(self.values@[index as int], bit);
            }
            (self.values[index] >> bit) & 1 != 0
        }
    }

    /// Writes bit `i`. Where byte `i / 8` lies outside the buffer, the buffer
    /// first grows by zero bytes to end with that byte; it never shrinks.
    /// The store then reports the number of bits in its buffer.
    pub fn set(&mut self, i: usize, val: bool)
        requires
            old(self).wf(),
            (i / 8 + 1) * 8 <= usize::MAX,
        ensures
            final(self).wf(),
            final(self).bytes() == with_bit(old(self).bytes(), i as int, val),
            final(self).capacity() == final(self).bytes().len() * 8,
            final(self).bytes().len() == if old(self).bytes().len() > i / 8 {
                old(self).bytes().len() as int
            } else {
                i / 8 + 1
            },
            final(self).bytes().len() >= old(self).bytes().len(),
            forall|j: int|
                #![trigger final(self).bit(j)]
                final(self).bit(j) == (if j == i {
                    val
                } else {
                    old(self).bit(j)
                }),
    {
        let index: usize = i / 8;
        let digit: u8 = (i % 8) as u8;
        let mask: u8 = 1u8 << digit;
        if index >= self.values.len() {
            self.values.resize(index + 1, 0u8);
        }
        assert(self.values@ =~= padded(old(self).bytes(), index + 1));
        self.length = self.values.len() * 8;
        let byte: u8 = self.values[index];
        if val {
            self.values[index] = byte | mask;
        } else {
            self.values[index] = byte & !mask;
        }
        proof {
            lemma_or_is_byte_with(byte, digit);
            lemma_and_is_byte_with(byte, digit);
            lemma_with_bit_len(old(self).bytes(), i as int, val);
            assert forall|j: int| #![trigger self.bit(j)] self.bit(j) == (if j == i {
                val
            } else {
                old(self).bit(j)
            }) by {
                lemma_with_bit_bits(old(self).bytes(), i as int, val, j);
            }
        }
    }

    /// The highest index below the reported capacity whose bit equals `val`,
    /// if there is one.
    pub fn last_index_of(&self, val: bool) -> (r: Option<usize>)
        ensures
            match r {
                Some(i) => i < self.capacity() && self.bit(i as int) == val && forall|j: int|
                    i < j < self.capacity() ==> self.bit(j) != val,
                None => forall|j: int| 0 <= j < self.capacity() ==> self.bit(j) != val,
            },
    {
        let mut i: usize = self.length;
        while i > 0
            invariant
                i <= self.length,
                forall|j: int| i <= j < self.length ==> self.bit(j) != val,
            decreases i,
        {
            i = i - 1;
            if self.get(i) == val {
                return Some(i);
            }
        }
        None
    }

    /// The buffer as a zlib stream, compressed at `COMPRESSION_LEVEL`. The
    /// stream holds the bytes alone, not the reported capacity. Unpacked with
    /// a bit count declared, the store's own or another, it gives back a
    /// store that reports that count and has every bit as this store has it.
    pub fn to_packed(&self) -> (packed: Vec<u8>)
        ensures
            packed@ == zlib_compressed(self.bytes(), COMPRESSION_LEVEL),
            zlib_decoded(packed@) == Some(self.bytes()),
            forall|declared: usize|
                #![trigger unpacked(packed@, Some(declared))]
                self.restored_from(packed@, declared),
    {
        let packed = zlib_compress(&self.values, COMPRESSION_LEVEL);
        proof {
            assert forall|declared: usize| self.restored_from(packed@, declared) by {
                lemma_round_trip(*self, packed@, declared);
            }
        }
        packed
    }

    /// A store of the bytes `decoded`, reporting the resolved bit count:
    /// `length`, or else the number of bits in `decoded`. Where `decoded` is
    /// too short for that many bits, zero bytes are appended. Fails only
    /// where no count is declared and `usize` cannot hold the number of bits
    /// in `decoded`.
    pub fn from_decoded(decoded: Vec<u8>, length: Option<usize>) -> (r: Result<
        BitField8,
        DecodeError,
    >)
        ensures
            match rebuilt(decoded@, length) {
                Ok((bits, bytes)) => r matches Ok(store) && store.capacity() == bits
                    && store.bytes() == bytes && forall|i: int|
                    store.bit(i) == bit_at(decoded@, i),
                Err(e) => r matches Err(err) && err == e,
            },
    {
        let mut values = decoded;
        let length: usize = match length {
            Some(bits) => bits,
            None => {
                if values.len() > usize::MAX / 8 {
                    return Err(DecodeError::LengthOverflow);
                }
                values.len() * 8
            },
        };
        let rest: usize = if length % 8 == 0 { 0 } else { 1 };
        let bytes: usize = length / 8 + rest;
        if bytes > values.len() {
            values.resize(bytes, 0u8);
        }
        proof {
            assert(values@ =~= padded(decoded@, bytes as int));
            assert forall|i: int| bit_at(values@, i) == bit_at(decoded@, i) by {
                lemma_padding_keeps_bits(decoded@, bytes as int, i);
            }
        }
        Ok(BitField8 { length, values })
    }
}

impl TryFrom<(Vec<u8>, Option<usize>)> for BitField8 {
    type Error = DecodeError;

    /// Unpacks a store from a zlib stream and an optional declared bit
    /// count: the store of the decoded bytes, as `from_decoded` builds it.
    /// Fails where the stream is malformed, and where `from_decoded` fails.
    fn try_from(value: (Vec<u8>, Option<usize>)) -> (r: Result<BitField8, DecodeError>)
        ensures
            match unpacked(value.0@, value.1) {
                Ok((bits, bytes)) => r matches Ok(store) && store.capacity() == bits
                    && store.bytes() == bytes,
                Err(e) => r matches Err(err) && err == e,
            },
    {
        let (compressed, length) = value;
        match zlib_decompress(&compressed) {
            Err(_) => Err(DecodeError::Malformed),
            Ok(decoded) => BitField8::from_decoded(decoded, length),
        }
    }
}

/// Two vectors with the same bytes need not be one value in a specification,
/// so no spec function names the store that `try_from` returns: its own
/// clauses state the result.
impl vstd::std_specs::convert::TryFromSpecImpl<(Vec<u8>, Option<usize>)> for BitField8 {
    open spec fn obeys_try_from_spec() -> bool {
        false
    }

    open spec fn try_from_spec(value: (Vec<u8>, Option<usize>)) -> Result<Self, DecodeError> {
        Err(DecodeError::Malformed)
    }
}

impl Clone for BitField8 {
    /// A store with the same capacity and the same buffer.
    fn clone(&self) -> (r: BitField8)
        ensures
            r.capacity() == self.capacity(),
            r.bytes() == self.bytes(),
    {
        let values = self.values.clone();
        assert(values@ =~= self.values@);
        BitField8 { length: self.length, values }
    }
}

/// Packing and unpacking keeps every bit. Where `packed` decodes to the
/// buffer of `store`, as what `to_packed` returns does, unpacking it with
/// any bit count declared succeeds and gives a store that reports that count
/// and has every bit as `store` has it.
pub proof fn lemma_round_trip(store: BitField8, packed: Seq<u8>, declared: usize)
    requires
        zlib_decoded(packed) == Some(store.bytes()),
    ensures
        store.restored_from(packed, declared),
{
    assert forall|i: int| bit_at(rebuilt_bytes(store.bytes(), Some(declared)), i) == store.bit(i) by {
        lemma_padding_keeps_bits(store.bytes(), bytes_for(declared as int), i);
    }
}

} // verus!
