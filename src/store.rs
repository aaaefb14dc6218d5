//! The logic of the document store: records as they are persisted, byte-exact
//! resolution of a vector to its text, and rebuilding the pattern matrix.
use vstd::prelude::*;
use crate::codec::{decoding, encoding, from_bytes, lemma_round_trip, to_bytes};
use crate::matrix::{uniform, width_of, Matrix, MemoryError};

verus! {

/// A stored record: the serialized embedding and its text.
pub struct Document {
    pub embedding: Vec<u8>,
    pub text: String,
}

/// The serialized embeddings of `docs`, in storage order.
pub open spec fn blobs_of(docs: Seq<Document>) -> Seq<Seq<u8>> {
    docs.map_values(|d: Document| d.embedding@)
}

/// True when record `i` is the first whose bytes are `key`.
pub open spec fn is_first_match(blobs: Seq<Seq<u8>>, key: Seq<u8>, i: int) -> bool {
    &&& 0 <= i < blobs.len()
    &&& blobs[i] == key
    &&& forall|j: int| 0 <= j < i ==> blobs[j] != key
}

/// Bytes equality of two byte vectors.
fn same_bytes(a: &Vec<u8>, b: &Vec<u8>) -> (r: bool)
    ensures
        r == (a@ == b@),
{
    if a.len() != b.len() {
        return false;
    }
    let mut i: usize = 0;
    while i < a.len()
        invariant
            a@.len() == b@.len(),
            i <= a@.len(),
            forall|k: int| 0 <= k < i ==> a@[k] == b@[k],
        decreases a@.len() - i,
    {
        if a[i] != b[i] {
            return false;
        }
        i = i + 1;
    }
    assert(a@ =~= b@);
    true
}

/// Position of the first record whose bytes equal the serialization of
/// `embedding`, or `None` when no record matches byte for byte.
pub fn find(docs: &Vec<Document>, embedding: &Vec<u32>) -> (r: Option<usize>)
    requires
        4 * embedding@.len() <= usize::MAX,
    ensures
        r matches Some(i) ==> is_first_match(blobs_of(docs@), encoding(embedding@), i as int),
        r is None ==> forall|j: int| 0 <= j < docs@.len() ==> #[trigger] docs@[j].embedding@ != encoding(embedding@),
{
    let key = to_bytes(embedding);
    let mut i: usize = 0;
    while i < docs.len()
        invariant
            key@ == encoding(embedding@),
            i <= docs@.len(),
            forall|j: int| 0 <= j < i ==> #[trigger] docs@[j].embedding@ != key@,
        decreases docs@.len() - i,
    {
        if same_bytes(&docs[i].embedding, &key) {
            return Some(i);
        }
        i = i + 1;
    }
    None
}

/// The text of the first record whose bytes equal the serialization of
/// `embedding`; `None` is a lookup miss.
pub fn get(docs: &Vec<Document>, embedding: &Vec<u32>) -> (r: Option<String>)
    requires
        4 * embedding@.len() <= usize::MAX,
    ensures
        r matches Some(t) ==> exists|i: int| is_first_match(blobs_of(docs@), encoding(embedding@), i)
            && t@ == docs@[i].text@,
        r is None ==> forall|j: int| 0 <= j < docs@.len() ==> #[trigger] docs@[j].embedding@ != encoding(embedding@),
{
    match find(docs, embedding) {
        Some(i) => {
            let t = docs[i].text.clone();
            Some(t)
        },
        None => None,
    }
}

/// The record that stores `text` under the serialization of `embedding`.
pub fn document(embedding: &Vec<u32>, text: String) -> (d: Document)
    requires
        4 * embedding@.len() <= usize::MAX,
    ensures
        d.embedding@ == encoding(embedding@),
        d.text == text,
{
    Document { embedding: to_bytes(embedding), text }
}

/// True when every serialized record is a whole number of four-byte values.
pub open spec fn well_framed(blobs: Seq<Seq<u8>>) -> bool {
    forall|i: int| 0 <= i < blobs.len() ==> #[trigger] blobs[i].len() % 4 == 0
}

/// The vectors that the serialized records decode to.
pub open spec fn decoded(blobs: Seq<Seq<u8>>) -> Seq<Seq<u32>> {
    blobs.map_values(|b: Seq<u8>| decoding(b))
}

/// Storing vectors of one width and reading the records back gives those
/// vectors: their encodings are whole numbers of values, and decode to rows
/// of that same width, in storage order.
pub proof fn lemma_rebuild_from_stored(vs: Seq<Seq<u32>>, d: nat)
    requires
        uniform(vs, d),
    ensures
        well_framed(vs.map_values(|v: Seq<u32>| encoding(v))),
        decoded(vs.map_values(|v: Seq<u32>| encoding(v))) == vs,
        uniform(decoded(vs.map_values(|v: Seq<u32>| encoding(v))), width_of(vs)),
{
    let bs = vs.map_values(|v: Seq<u32>| encoding(v));
    assert forall|i: int| 0 <= i < bs.len() implies #[trigger] bs[i].len() % 4 == 0 by {
        assert(bs[i].len() == 4 * vs[i].len());
    }
    assert forall|i: int| 0 <= i < vs.len() implies #[trigger] decoded(bs)[i] == vs[i] by {
        lemma_round_trip(vs[i]);
    }
    assert(decoded(bs) =~= vs);
}

/// Rebuilds the pattern matrix from the serialized embeddings, one row per
/// record in storage order. No records give the empty matrix, on which a
/// convergence then fails with `EmptyMemory`. A record that is not a whole
/// number of values, or two records of different dimensionality, give
/// `DimensionMismatch`.
pub fn get_all_embeddings(blobs: &Vec<Vec<u8>>) -> (r: Result<Matrix, MemoryError>)
    ensures
        (well_framed(blobs@.map_values(|b: Vec<u8>| b@))
            && uniform(decoded(blobs@.map_values(|b: Vec<u8>| b@)), width_of(decoded(blobs@.map_values(|b: Vec<u8>| b@)))))
            <==> r is Ok,
        r is Err ==> r == Err::<Matrix, MemoryError>(MemoryError::DimensionMismatch),
        r matches Ok(m) ==> m.wf() && m@ == decoded(blobs@.map_values(|b: Vec<u8>| b@))
            && m.width() == width_of(m@),
        blobs@.len() == 0 ==> (r matches Ok(m) && m@.len() == 0 && m.width() == 0),
{
    let ghost bv = blobs@.map_values(|b: Vec<u8>| b@);
    let mut rows: Vec<Vec<u32>> = Vec::with_capacity(blobs.len());
    let mut i: usize = 0;
    while i < blobs.len()
        invariant
            bv == blobs@.map_values(|b: Vec<u8>| b@),
            i <= blobs@.len(),
            rows@.len() == i,
            forall|k: int| 0 <= k < i ==> #[trigger] bv[k].len() % 4 == 0,
            forall|k: int| 0 <= k < i ==> #[trigger] rows@[k]@ == decoding(bv[k]),
        decreases blobs@.len() - i,
    {
        match from_bytes(blobs[i].as_slice()) {
            Ok(row) => rows.push(row),
            Err(e) => {
                assert(bv[i as int].len() % 4 != 0);
                return Err(e);
            },
        }
        i = i + 1;
    }
    let ghost rv = rows@.map_values(|v: Vec<u32>| v@);
    assert(rv =~= decoded(bv));
    Matrix::from_rows(rows)
}

} // verus!
