//! Little-endian serialization of embedding vectors.
use vstd::prelude::*;
use crate::matrix::MemoryError;

verus! {

/// The four little-endian bytes of one float bit pattern.
pub open spec fn le_bytes(v: u32) -> Seq<u8> {
    seq![(v & 0xff) as u8, ((v >> 8u32) & 0xff) as u8, ((v >> 16u32) & 0xff) as u8, ((v >> 24u32) & 0xff) as u8]
}

/// The bit pattern whose little-endian bytes are `b0, b1, b2, b3`.
pub open spec fn from_le(b0: u8, b1: u8, b2: u8, b3: u8) -> u32 {
    (b0 as u32) | ((b1 as u32) << 8u32) | ((b2 as u32) << 16u32) | ((b3 as u32) << 24u32)
}

/// The serialized form of a vector: each value's four little-endian bytes, concatenated.
pub open spec fn encoding(v: Seq<u32>) -> Seq<u8> {
    Seq::new((4 * v.len()) as nat, |j: int| le_bytes(v[j / 4])[j % 4])
}

/// The vector that bytes of a length divisible by four read back as.
pub open spec fn decoding(b: Seq<u8>) -> Seq<u32> {
    Seq::new(b.len() / 4, |i: int| from_le(b[4 * i], b[4 * i + 1], b[4 * i + 2], b[4 * i + 3]))
}

proof fn lemma_bytes_compose(v: u32)
    ensures
        from_le(le_bytes(v)[0], le_bytes(v)[1], le_bytes(v)[2], le_bytes(v)[3]) == v,
{
    let b0 = (v & 0xff) as u8;
    let b1 = ((v >> 8u32) & 0xff) as u8;
    let b2 = ((v >> 16u32) & 0xff) as u8;
    let b3 = ((v >> 24u32) & 0xff) as u8;
    assert((b0 as u32) | ((b1 as u32) << 8u32) | ((b2 as u32) << 16u32) | ((b3 as u32) << 24u32)
        == v) by (bit_vector)
        requires
            b0 == (v & 0xff) as u8,
            b1 == ((v >> 8u32) & 0xff) as u8,
            b2 == ((v >> 16u32) & 0xff) as u8,
            b3 == ((v >> 24u32) & 0xff) as u8,
    ;
}

/// Serializing a vector to bytes and reading it back gives the same vector.
pub proof fn lemma_round_trip(v: Seq<u32>)
    ensures
        decoding(encoding(v)) == v,
{
    let e = encoding(v);
    assert forall|i: int| 0 <= i < v.len() implies #[trigger] decoding(e)[i] == v[i] by {
        assert((4 * i) / 4 == i && (4 * i + 1) / 4 == i && (4 * i + 2) / 4 == i && (4 * i + 3) / 4 == i);
        assert((4 * i) % 4 == 0 && (4 * i + 1) % 4 == 1 && (4 * i + 2) % 4 == 2 && (4 * i + 3) % 4 == 3);
        lemma_bytes_compose(v[i]);
    }
    assert(decoding(e) =~= v);
}

/// Serializes a vector: four little-endian bytes per value, no length prefix.
pub fn to_bytes(values: &Vec<u32>) -> (r: Vec<u8>)
    requires
        4 * values.len() <= usize::MAX,
    ensures
        r@ == encoding(values@),
{
    let mut r: Vec<u8> = Vec::with_capacity(values.len() * 4);
    let mut i: usize = 0;
    while i < values.len()
        invariant
            i <= values.len(),
            4 * values.len() <= usize::MAX,
            r@.len() == 4 * i,
            forall|j: int| 0 <= j < 4 * i ==> #[trigger] r@[j] == le_bytes(values@[j / 4])[j % 4],
        decreases values.len() - i,
    {
        let v = values[i];
        r.push((v & 0xff) as u8);
        r.push(((v >> 8u32) & 0xff) as u8);
        r.push(((v >> 16u32) & 0xff) as u8);
        r.push(((v >> 24u32) & 0xff) as u8);
        assert forall|j: int| 4 * i <= j < 4 * i + 4 implies #[trigger] r@[j] == le_bytes(values@[j / 4])[j % 4] by {
            assert(j / 4 == i as int);
        }
        i = i + 1;
    }
    assert(r@ =~= encoding(values@));
    r
}

/// Reads a vector back from bytes, four little-endian bytes per value. A
/// length that is not a multiple of four is a dimensionality mismatch.
pub fn from_bytes(bytes: &[u8]) -> (r: Result<Vec<u32>, MemoryError>)
    ensures
        bytes@.len() % 4 != 0 <==> r == Err::<Vec<u32>, MemoryError>(MemoryError::DimensionMismatch),
        bytes@.len() % 4 == 0 ==> (r matches Ok(v) && v@ == decoding(bytes@) && 4 * v@.len() == bytes@.len()),
{
    let len = bytes.len();
    if len % 4 != 0 {
        return Err(MemoryError::DimensionMismatch);
    }
    let n = len / 4;
    assert(4 * n <= bytes@.len());
    let mut r: Vec<u32> = Vec::with_capacity(n);
    let mut i: usize = 0;
    while i < n
        invariant
            n == bytes@.len() / 4,
            len == bytes@.len(),
            4 * n <= len,
            i <= n,
            r@.len() == i,
            forall|k: int| 0 <= k < i ==> #[trigger] r@[k] == decoding(bytes@)[k],
        decreases n - i,
    {
        let base: usize = 4 * i;
        let v = (bytes[base] as u32) | ((bytes[base + 1] as u32) << 8u32)
            | ((bytes[base + 2] as u32) << 16u32) | ((bytes[base + 3] as u32) << 24u32);
        r.push(v);
        i = i + 1;
    }
    assert(r@ =~= decoding(bytes@));
    Ok(r)
}

} // verus!
