//! What it means to encode a value as bytes, and the fixed-width number
//! encodings that the operands share.

use vstd::prelude::*;

verus! {

/// A value that has an encoding in the byte stream.
pub trait ToBytes {
    /// Whether the value is within the limits of its encoding.
    spec fn encodable(&self) -> bool;

    /// The bytes that stand for the value in the byte stream.
    spec fn encoding(&self) -> Seq<u8>;

    /// Encodes the value.
    fn to_bytes(&self) -> (bytes: Vec<u8>)
        requires
            self.encodable(),
        ensures
            bytes@ == self.encoding(),
    ;

    /// Returns the number of bytes that the value takes in the byte stream.
    fn length_in_bytes(&self) -> (length: usize)
        requires
            self.encodable(),
        ensures
            length == self.encoding().len(),
    {
        self.to_bytes().len()
    }
}

/// The number that `bytes` denotes when read most significant byte first.
pub open spec fn be_value(bytes: Seq<u8>) -> nat
    decreases bytes.len(),
{
    if bytes.len() == 0 {
        0
    } else {
        256 * be_value(bytes.drop_last()) + bytes.last() as nat
    }
}

/// The eight bytes of `n`, most significant first.
pub open spec fn u64_be_bytes(n: u64) -> Seq<u8> {
    seq![
        (n / 0x100_0000_0000_0000) as u8,
        (n / 0x1_0000_0000_0000 % 256) as u8,
        (n / 0x100_0000_0000 % 256) as u8,
        (n / 0x1_0000_0000 % 256) as u8,
        (n / 0x100_0000 % 256) as u8,
        (n / 0x1_0000 % 256) as u8,
        (n / 0x100 % 256) as u8,
        (n % 256) as u8,
    ]
}

/// The unsigned number with the bit pattern of `n` in 64-bit two's
/// complement: `n` itself where it is not negative, and `n + 2^64` where it
/// is.
pub open spec fn twos_complement(n: i64) -> u64 {
    if n >= 0 {
        n as u64
    } else {
        (n + 0x1_0000_0000_0000_0000) as u64
    }
}

/// The eight zero bytes that keep the place of an address that is not yet
/// known.
pub open spec fn address_slot() -> Seq<u8> {
    seq![0u8, 0u8, 0u8, 0u8, 0u8, 0u8, 0u8, 0u8]
}

/// Reading one byte more multiplies what was read by 256 and adds the byte.
pub proof fn lemma_be_value_step(bytes: Seq<u8>, k: int)
    requires
        0 < k <= bytes.len(),
    ensures
        be_value(bytes.take(k)) == 256 * be_value(bytes.take(k - 1)) + bytes[k - 1],
{
    assert(bytes.take(k).drop_last() =~= bytes.take(k - 1));
}

/// Read as a big-endian number, the eight bytes of `n` denote `n`.
pub proof fn lemma_u64_be_bytes_value(n: u64)
    ensures
        u64_be_bytes(n).len() == 8,
        be_value(u64_be_bytes(n)) == n,
{
    let b = u64_be_bytes(n);
    assert(b.take(8) =~= b);
    assert(be_value(b.take(0)) == 0);
    lemma_be_value_step(b, 1);
    assert(be_value(b.take(1)) == n / 0x100_0000_0000_0000);
    lemma_be_value_step(b, 2);
    assert(be_value(b.take(2)) == n / 0x1_0000_0000_0000);
    lemma_be_value_step(b, 3);
    assert(be_value(b.take(3)) == n / 0x100_0000_0000);
    lemma_be_value_step(b, 4);
    assert(be_value(b.take(4)) == n / 0x1_0000_0000);
    lemma_be_value_step(b, 5);
    assert(be_value(b.take(5)) == n / 0x100_0000);
    lemma_be_value_step(b, 6);
    assert(be_value(b.take(6)) == n / 0x1_0000);
    lemma_be_value_step(b, 7);
    assert(be_value(b.take(7)) == n / 0x100);
    lemma_be_value_step(b, 8);
}

/// Eight bytes are the eight bytes of the number they denote: the encoding
/// of a 64-bit number loses nothing and has no second form.
pub proof fn lemma_be_value_u64_be_bytes(bytes: Seq<u8>)
    requires
        bytes.len() == 8,
    ensures
        be_value(bytes) <= u64::MAX,
        u64_be_bytes(be_value(bytes) as u64) == bytes,
{
    let v1 = be_value(bytes.take(1));
    let v2 = be_value(bytes.take(2));
    let v3 = be_value(bytes.take(3));
    let v4 = be_value(bytes.take(4));
    let v5 = be_value(bytes.take(5));
    let v6 = be_value(bytes.take(6));
    let v7 = be_value(bytes.take(7));
    let v8 = be_value(bytes);
    assert(bytes.take(8) =~= bytes);
    assert(be_value(bytes.take(0)) == 0);
    lemma_be_value_step(bytes, 1);
    lemma_be_value_step(bytes, 2);
    lemma_be_value_step(bytes, 3);
    lemma_be_value_step(bytes, 4);
    lemma_be_value_step(bytes, 5);
    lemma_be_value_step(bytes, 6);
    lemma_be_value_step(bytes, 7);
    lemma_be_value_step(bytes, 8);
    assert(v8 <= u64::MAX);
    let n = v8 as u64;
    assert(n % 256 == bytes[7] && n / 0x100 == v7);
    assert(n / 0x100 % 256 == bytes[6] && n / 0x1_0000 == v6);
    assert(n / 0x1_0000 % 256 == bytes[5] && n / 0x100_0000 == v5);
    assert(n / 0x100_0000 % 256 == bytes[4] && n / 0x1_0000_0000 == v4);
    assert(n / 0x1_0000_0000 % 256 == bytes[3] && n / 0x100_0000_0000 == v3);
    assert(n / 0x100_0000_0000 % 256 == bytes[2] && n / 0x1_0000_0000_0000 == v2);
    assert(n / 0x1_0000_0000_0000 % 256 == bytes[1] && n / 0x100_0000_0000_0000 == v1);
    assert(u64_be_bytes(n) =~= bytes);
}

} // verus!
