//! The erasure-coding collaborator: expansion of a segment's source records
//! into parity records, and recovery of the source records from any
//! sufficiently large subset of the resulting codeword.
//!
//! The field arithmetic itself is outside this crate; the calls into it are
//! trusted and everything around them is verified.

use crate::segments::{PARITY_PIECES_PER_SEGMENT, PIECES_PER_SEGMENT, RECORDS_PER_SEGMENT,
    RECORD_SIZE};
use vstd::prelude::*;

verus! {

/// The views of a list of byte buffers.
pub open spec fn views_of(s: Seq<Vec<u8>>) -> Seq<Seq<u8>> {
    s.map_values(|v: Vec<u8>| v@)
}

/// A well-formed source: exactly [`RECORDS_PER_SEGMENT`] records of
/// [`RECORD_SIZE`] bytes each.
pub open spec fn source_wf(source: Seq<Seq<u8>>) -> bool {
    &&& source.len() == RECORDS_PER_SEGMENT
    &&& forall|i: int| 0 <= i < source.len() ==> (#[trigger] source[i]).len() == RECORD_SIZE
}

/// The parity records that the erasure-coding collaborator derives from a
/// well-formed source; a function of the source records alone.
pub uninterp spec fn parity_of(source: Seq<Seq<u8>>) -> Seq<Seq<u8>>;

/// The codeword of a source: its records followed by their parity records,
/// one record per piece position.  The code is systematic: positions
/// `[0, RECORDS_PER_SEGMENT)` are the source records themselves.
pub open spec fn codeword_of(source: Seq<Seq<u8>>) -> Seq<Seq<u8>> {
    source + parity_of(source)
}

/// Number of present entries in a sparse sequence.
pub open spec fn count_present<T>(s: Seq<Option<T>>) -> nat
    decreases s.len(),
{
    if s.len() == 0 {
        0
    } else {
        count_present(s.drop_last()) + (if s.last() is Some {
            1nat
        } else {
            0nat
        })
    }
}

/// Counting a one-longer prefix adds the entry at its end.
pub proof fn lemma_count_present_take_step<T>(s: Seq<Option<T>>, i: int)
    requires
        0 <= i < s.len(),
    ensures
        count_present(s.take(i + 1)) == count_present(s.take(i)) + (if s[i] is Some {
            1int
        } else {
            0int
        }),
{
    assert(s.take(i + 1).drop_last() =~= s.take(i));
    assert(s.take(i + 1).last() == s[i]);
}

/// Filling one absent entry raises the present count by one.
pub proof fn lemma_count_present_fill<T>(s: Seq<Option<T>>, i: int, v: T)
    requires
        0 <= i < s.len(),
        s[i] is None,
    ensures
        count_present(s.update(i, Some(v))) == count_present(s) + 1,
    decreases s.len(),
{
    let t = s.update(i, Some(v));
    if i == s.len() - 1 {
        assert(t.drop_last() =~= s.drop_last());
        assert(t.last() == Some(v));
        assert(s.last() == s[i]);
    } else {
        assert(t.drop_last() =~= s.drop_last().update(i, Some(v)));
        assert(t.last() == s.last());
        lemma_count_present_fill(s.drop_last(), i, v);
    }
}

/// Two sparse sequences that are present at the same positions have the same
/// present count.
pub proof fn lemma_count_present_congruent<T, U>(a: Seq<Option<T>>, b: Seq<Option<U>>)
    requires
        a.len() == b.len(),
        forall|i: int| 0 <= i < a.len() ==> ((#[trigger] a[i]) is Some <==> b[i] is Some),
    ensures
        count_present(a) == count_present(b),
    decreases a.len(),
{
    if a.len() > 0 {
        assert(a.last() == a[a.len() - 1]);
        assert forall|i: int| 0 <= i < a.drop_last().len() implies ((#[trigger] a.drop_last()[i])
            is Some <==> b.drop_last()[i] is Some) by {
            assert(a.drop_last()[i] == a[i]);
            assert(b.drop_last()[i] == b[i]);
        }
        lemma_count_present_congruent(a.drop_last(), b.drop_last());
    }
}

/// Every present shard agrees with the codeword of `source` at its position.
pub open spec fn shards_consistent(shards: Seq<Option<Vec<u8>>>, source: Seq<Seq<u8>>) -> bool {
    forall|i: int|
        0 <= i < shards.len() ==> ((#[trigger] shards[i]) matches Some(v) ==> v@ == codeword_of(
            source,
        )[i])
}

/// Relies on `reed_solomon_erasure::galois_8::ReedSolomon::encode_sep` with
/// 128 data and 128 parity shards: given exactly 128 data shards of one
/// equal, non-zero length it succeeds, and fills the parity shards with that
/// same length as a deterministic function of the data shards alone.
#[verifier::external_body]
pub(crate) fn rs_extend(parity_count: usize, source: &Vec<Vec<u8>>) -> (r: Vec<Vec<u8>>)
    requires
        parity_count == PARITY_PIECES_PER_SEGMENT,
        source@.len() == RECORDS_PER_SEGMENT,
        forall|i: int| 0 <= i < source@.len() ==> (#[trigger] source@[i])@.len() == RECORD_SIZE,
    ensures
        r@.len() == PARITY_PIECES_PER_SEGMENT,
        forall|i: int| 0 <= i < r@.len() ==> (#[trigger] r@[i])@.len() == RECORD_SIZE,
        views_of(r@) == parity_of(views_of(source@)),
{
    let codec = reed_solomon_erasure::galois_8::ReedSolomon::new(source.len(), parity_count)
        .expect("data and parity shard counts are within the field order");
    let mut parity = vec![vec![0u8; source[0].len()]; parity_count];
    codec
        .encode_sep(source.as_slice(), parity.as_mut_slice())
        .expect("shard counts and sizes are fixed by the contract");
    parity
}

/// Relies on `reed_solomon_erasure::galois_8::ReedSolomon::reconstruct_data`
/// with 128 data and 128 parity shards: given at least 128 present shards of
/// one equal, non-zero length it succeeds, keeps the present data shards
/// unchanged and fills every absent data shard.  Any 128 of the 256 positions
/// determine the codeword, so the 128 data shards it returns are the source
/// records of any codeword the present shards are all drawn from.
#[verifier::external_body]
pub(crate) fn rs_recover(data_count: usize, parity_count: usize, shards: Vec<Option<Vec<u8>>>) -> (r:
    Vec<Vec<u8>>)
    requires
        data_count == RECORDS_PER_SEGMENT,
        parity_count == PARITY_PIECES_PER_SEGMENT,
        shards@.len() == PIECES_PER_SEGMENT,
        count_present(shards@) >= RECORDS_PER_SEGMENT,
        forall|i: int|
            0 <= i < shards@.len() ==> ((#[trigger] shards@[i]) matches Some(v) ==> v@.len()
                == RECORD_SIZE),
    ensures
        r@.len() == RECORDS_PER_SEGMENT,
        forall|i: int| 0 <= i < r@.len() ==> (#[trigger] r@[i])@.len() == RECORD_SIZE,
        forall|i: int|
            0 <= i < RECORDS_PER_SEGMENT ==> ((#[trigger] shards@[i]) matches Some(v) ==> r@[i]@
                == v@),
        forall|source: Seq<Seq<u8>>|
            source_wf(source) && #[trigger] shards_consistent(shards@, source) ==> views_of(r@)
                == source,
{
    let codec = reed_solomon_erasure::galois_8::ReedSolomon::new(data_count, parity_count)
        .expect("data and parity shard counts are within the field order");
    let mut shards = shards;
    codec
        .reconstruct_data(shards.as_mut_slice())
        .expect("presence, counts and sizes are fixed by the contract");
    shards.into_iter().take(data_count).flatten().collect()
}

} // verus!
