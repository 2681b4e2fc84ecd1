//! Reconstruction of a segment's original bytes from a sparse piece array.
//!
//! Reconstruction is a pure function of the piece set: any two sufficient
//! subsets of one segment's pieces yield bit-identical bytes.

use crate::bytes::{concat_all, copy_range, lemma_concat_all_len, lemma_concat_all_take_step,
    push_all};
use crate::erasure::{codeword_of, count_present, lemma_count_present_congruent,
    lemma_count_present_take_step, rs_recover, shards_consistent, source_wf, views_of};
use crate::pieces::Piece;
use crate::segments::{PARITY_PIECES_PER_SEGMENT, PIECES_PER_SEGMENT, RECORDS_PER_SEGMENT,
    RECORD_SIZE, SEGMENT_RAW_SIZE, Segment};
use vstd::prelude::*;

verus! {

/// A sparse piece array cannot be turned back into a segment.
#[derive(Clone, Copy, Debug, PartialEq, Eq, Structural)]
pub enum ReconstructorError {
    /// Fewer piece slots were present than source records are needed; carries
    /// the number of slots that were present.
    InsufficientPieces(usize),
    /// A present piece at the carried position does not have the fixed piece
    /// layout.
    MalformedPiece(usize),
}

/// Every present piece has the fixed piece layout.
pub open spec fn pieces_wf(pieces: Seq<Option<Piece>>) -> bool {
    forall|i: int|
        0 <= i < pieces.len() ==> ((#[trigger] pieces[i]) matches Some(p) ==> p.wf())
}

/// Every present piece carries the codeword record of `source` at its
/// position.
pub open spec fn pieces_consistent(pieces: Seq<Option<Piece>>, source: Seq<Seq<u8>>) -> bool {
    forall|i: int|
        0 <= i < pieces.len() ==> ((#[trigger] pieces[i]) matches Some(p) ==> p.record@
            == codeword_of(source)[i])
}

/// What successful reconstruction of `pieces` yields: for every source whose
/// codeword the present pieces are drawn from, exactly the concatenation of
/// that source's records.
pub open spec fn reconstructs_to(pieces: Seq<Option<Piece>>, bytes: Seq<u8>) -> bool {
    forall|source: Seq<Seq<u8>>|
        source_wf(source) && #[trigger] pieces_consistent(pieces, source) ==> bytes == concat_all(
            source,
        )
}

/// The inverse of segment building: recovers the original raw bytes of one
/// segment from any sufficient subset of its pieces.
pub struct SegmentReconstructor {}

impl SegmentReconstructor {
    /// A reconstructor; it holds no state.
    pub fn new() -> (r: SegmentReconstructor) {
        SegmentReconstructor {  }
    }

    /// Counts the present slots of a piece array.
    pub fn count_present_pieces(segment_pieces: &Vec<Option<Piece>>) -> (r: usize)
        ensures
            r == count_present(segment_pieces@),
    {
        let n = segment_pieces.len();
        let mut count: usize = 0;
        let mut i: usize = 0;
        while i < n
            invariant
                i <= n == segment_pieces@.len(),
                count == count_present(segment_pieces@.take(i as int)),
                count <= i,
            decreases n - i,
        {
            proof {
                lemma_count_present_take_step(segment_pieces@, i as int);
            }
            if segment_pieces[i].is_some() {
                count = count + 1;
            }
            i = i + 1;
        }
        proof {
            assert(segment_pieces@.take(n as int) =~= segment_pieces@);
        }
        count
    }

    /// Recovers the original segment from a sparse piece array.
    ///
    /// Fails with `InsufficientPieces` exactly when fewer slots are present
    /// than source records are needed, and with `MalformedPiece` exactly when
    /// enough slots are present but one of them breaks the fixed piece
    /// layout.  On success the bytes are determined by the piece set alone:
    /// any source whose codeword the present pieces agree with is returned
    /// exactly.
    pub fn reconstruct_segment(&self, segment_pieces: &Vec<Option<Piece>>) -> (r: Result<
        Segment,
        ReconstructorError,
    >)
        requires
            segment_pieces@.len() == PIECES_PER_SEGMENT,
        ensures
            count_present(segment_pieces@) < RECORDS_PER_SEGMENT ==> r == Err::<
                Segment,
                ReconstructorError,
            >(ReconstructorError::InsufficientPieces(count_present(segment_pieces@) as usize)),
            count_present(segment_pieces@) >= RECORDS_PER_SEGMENT && !pieces_wf(segment_pieces@)
                ==> (r matches Err(e) && e matches ReconstructorError::MalformedPiece(p) && 0 <= p
                < PIECES_PER_SEGMENT && (segment_pieces@[p as int] matches Some(x) && !x.wf())),
            count_present(segment_pieces@) >= RECORDS_PER_SEGMENT && pieces_wf(segment_pieces@)
                ==> (r matches Ok(seg) && seg.wf() && reconstructs_to(
                segment_pieces@,
                seg.bytes_spec(),
            )),
    {
        let count = Self::count_present_pieces(segment_pieces);
        if count < RECORDS_PER_SEGMENT {
            return Err(ReconstructorError::InsufficientPieces(count));
        }
        // Reject pieces that break the fixed layout before any recovery.
        let mut i: usize = 0;
        while i < PIECES_PER_SEGMENT
            invariant
                i <= PIECES_PER_SEGMENT == segment_pieces@.len(),
                count_present(segment_pieces@) >= RECORDS_PER_SEGMENT,
                forall|j: int|
                    0 <= j < i ==> ((#[trigger] segment_pieces@[j]) matches Some(p) ==> p.wf()),
            decreases PIECES_PER_SEGMENT - i,
        {
            match &segment_pieces[i] {
                Some(piece) => {
                    if !piece.is_wf() {
                        return Err(ReconstructorError::MalformedPiece(i));
                    }
                },
                None => {},
            }
            i = i + 1;
        }
        assert(pieces_wf(segment_pieces@));
        let records = Self::recover_records(segment_pieces);
        let ghost record_views = views_of(records@);
        // Concatenate the recovered source records in position order.
        let mut out: Vec<u8> = Vec::new();
        let mut i: usize = 0;
        while i < RECORDS_PER_SEGMENT
            invariant
                i <= RECORDS_PER_SEGMENT,
                records@.len() == RECORDS_PER_SEGMENT,
                record_views == views_of(records@),
                forall|j: int| 0 <= j < records@.len() ==> (#[trigger] records@[j])@.len()
                    == RECORD_SIZE,
                out@ == concat_all(record_views.take(i as int)),
            decreases RECORDS_PER_SEGMENT - i,
        {
            proof {
                lemma_concat_all_take_step(record_views, i as int);
                assert(record_views[i as int] == records@[i as int]@);
            }
            push_all(&mut out, &records[i]);
            i = i + 1;
        }
        proof {
            assert(record_views.take(RECORDS_PER_SEGMENT as int) =~= record_views);
            lemma_concat_all_len(record_views, RECORD_SIZE as int);
        }
        let segment = Segment { bytes: out };
        proof {
            assert forall|source: Seq<Seq<u8>>|
                source_wf(source) && #[trigger] pieces_consistent(
                    segment_pieces@,
                    source,
                ) implies segment.bytes_spec() == concat_all(source) by {
                assert(views_of(records@) == source);
            }
        }
        Ok(segment)
    }

    /// Extracts the source records of a sufficient, well-formed piece array,
    /// invoking the erasure-coding collaborator's recovery operation when
    /// source slots are missing.
    fn recover_records(segment_pieces: &Vec<Option<Piece>>) -> (r: Vec<Vec<u8>>)
        requires
            segment_pieces@.len() == PIECES_PER_SEGMENT,
            count_present(segment_pieces@) >= RECORDS_PER_SEGMENT,
            pieces_wf(segment_pieces@),
        ensures
            r@.len() == RECORDS_PER_SEGMENT,
            forall|i: int| 0 <= i < r@.len() ==> (#[trigger] r@[i])@.len() == RECORD_SIZE,
            forall|source: Seq<Seq<u8>>|
                source_wf(source) && #[trigger] pieces_consistent(segment_pieces@, source)
                    ==> views_of(r@) == source,
    {
        // Pull the record payloads out of the present slots.
        let mut shards: Vec<Option<Vec<u8>>> = Vec::new();
        let mut source_present: usize = 0;
        let mut i: usize = 0;
        while i < PIECES_PER_SEGMENT
            invariant
                i <= PIECES_PER_SEGMENT == segment_pieces@.len(),
                pieces_wf(segment_pieces@),
                shards@.len() == i,
                source_present <= i,
                forall|j: int|
                    0 <= j < i ==> ((#[trigger] shards@[j]) is Some <==> segment_pieces@[j]
                        is Some),
                forall|j: int|
                    0 <= j < i ==> ((#[trigger] segment_pieces@[j]) matches Some(p) ==> (
                    shards@[j] matches Some(v) && v@ == p.record@)),
                i <= RECORDS_PER_SEGMENT ==> source_present as int == count_present(shards@),
                i > RECORDS_PER_SEGMENT ==> source_present as int == count_present(
                    shards@.take(RECORDS_PER_SEGMENT as int),
                ),
            decreases PIECES_PER_SEGMENT - i,
        {
            let ghost prev = shards@;
            let present = segment_pieces[i].is_some();
            match &segment_pieces[i] {
                Some(piece) => {
                    let record = copy_range(&piece.record, 0, piece.record.len());
                    proof {
                        assert(record@ =~= piece.record@);
                    }
                    shards.push(Some(record));
                },
                None => {
                    shards.push(None);
                },
            }
            proof {
                assert(shards@.drop_last() =~= prev);
                if i < RECORDS_PER_SEGMENT {
                    assert(shards@ =~= shards@.take(i + 1));
                    lemma_count_present_take_step(shards@, i as int);
                    assert(shards@.take(i as int) =~= prev);
                } else {
                    assert(shards@.take(RECORDS_PER_SEGMENT as int) =~= prev.take(
                        RECORDS_PER_SEGMENT as int,
                    ));
                }
            }
            if i < RECORDS_PER_SEGMENT && present {
                source_present = source_present + 1;
            }
            i = i + 1;
        }
        proof {
            lemma_count_present_congruent(shards@, segment_pieces@);
            assert forall|j: int| 0 <= j < shards@.len() implies ((#[trigger] shards@[j]) matches
                Some(v) ==> v@.len() == RECORD_SIZE) by {
                if shards@[j] is Some {
                    assert(segment_pieces@[j] matches Some(p) && p.wf());
                }
            }
        }
        if source_present == RECORDS_PER_SEGMENT {
            // Every source slot is present: extract the records directly.
            let mut records: Vec<Vec<u8>> = Vec::new();
            let mut i: usize = 0;
            while i < RECORDS_PER_SEGMENT
                invariant
                    i <= RECORDS_PER_SEGMENT,
                    shards@.len() == PIECES_PER_SEGMENT,
                    count_present(shards@.take(RECORDS_PER_SEGMENT as int))
                        == RECORDS_PER_SEGMENT,
                    forall|j: int|
                        0 <= j < shards@.len() ==> ((#[trigger] shards@[j]) matches Some(v) ==> v@.len()
                            == RECORD_SIZE),
                    records@.len() == i,
                    forall|j: int|
                        0 <= j < i ==> ((#[trigger] shards@[j]) matches Some(v) && records@[j]@
                            == v@),
                decreases RECORDS_PER_SEGMENT - i,
            {
                proof {
                    if shards@[i as int] is None {
                        lemma_count_present_absent(
                            shards@.take(RECORDS_PER_SEGMENT as int),
                            i as int,
                        );
                    }
                }
                if let Some(v) = &shards[i] {
                    let record = copy_range(v, 0, v.len());
                    proof {
                        assert(record@ =~= v@);
                    }
                    records.push(record);
                } else {
                    proof {
                        assert(false);
                    }
                }
                i = i + 1;
            }
            proof {
                assert forall|j: int| 0 <= j < records@.len() implies (#[trigger] records@[j])@.len()
                    == RECORD_SIZE by {
                    assert(shards@[j] matches Some(v) && records@[j]@ == v@);
                }
                assert forall|source: Seq<Seq<u8>>|
                    source_wf(source) && #[trigger] pieces_consistent(
                        segment_pieces@,
                        source,
                    ) implies views_of(records@) == source by {
                    assert forall|j: int| 0 <= j < RECORDS_PER_SEGMENT implies records@[j]@
                        == source[j] by {
                        assert(shards@[j] is Some);
                        assert(segment_pieces@[j] matches Some(p) && p.record@ == codeword_of(
                            source,
                        )[j]);
                        assert(codeword_of(source)[j] == source[j]);
                    }
                    assert(views_of(records@) =~= source);
                }
            }
            records
        } else {
            let ghost shard_views = shards@;
            let records = rs_recover(RECORDS_PER_SEGMENT, PARITY_PIECES_PER_SEGMENT, shards);
            proof {
                assert forall|source: Seq<Seq<u8>>|
                    source_wf(source) && #[trigger] pieces_consistent(
                        segment_pieces@,
                        source,
                    ) implies views_of(records@) == source by {
                    assert forall|j: int| 0 <= j < shard_views.len() implies ((
                    #[trigger] shard_views[j]) matches Some(v) ==> v@ == codeword_of(source)[j])
                        by {
                        if shard_views[j] is Some {
                            assert(segment_pieces@[j] matches Some(p) && p.record@ == codeword_of(
                                source,
                            )[j]);
                        }
                    }
                    assert(shards_consistent(shard_views, source));
                }
            }
            records
        }
    }
}

/// Round-trip: take any segment a builder emitted, drop its pieces down to
/// any subset with at least [`RECORDS_PER_SEGMENT`] present slots, and the
/// subset is a valid, consistent input whose reconstruction is forced to be
/// exactly the segment's span of the built bytes.
pub proof fn lemma_round_trip(
    seg: crate::builder::ArchivedSegment,
    combined: Seq<u8>,
    j: int,
    first_segment_number: int,
    all_offsets: Seq<int>,
    subset: Seq<Option<Piece>>,
)
    requires
        0 <= j,
        j * SEGMENT_RAW_SIZE + SEGMENT_RAW_SIZE <= combined.len(),
        crate::builder::archived_segment_matches(seg, combined, j, first_segment_number,
            all_offsets),
        subset.len() == PIECES_PER_SEGMENT,
        forall|i: int|
            0 <= i < subset.len() ==> ((#[trigger] subset[i]) matches Some(p) ==> p
                == seg.pieces@[i]),
        count_present(subset) >= RECORDS_PER_SEGMENT,
    ensures
        pieces_wf(subset),
        source_wf(crate::builder::segment_records(combined, j)),
        pieces_consistent(subset, crate::builder::segment_records(combined, j)),
        forall|bytes: Seq<u8>|
            #[trigger] reconstructs_to(subset, bytes) ==> bytes == combined.subrange(
                j * SEGMENT_RAW_SIZE,
                j * SEGMENT_RAW_SIZE + SEGMENT_RAW_SIZE,
            ),
{
    let records = crate::builder::segment_records(combined, j);
    assert(0 <= j * SEGMENT_RAW_SIZE) by (nonlinear_arith)
        requires
            0 <= j,
            SEGMENT_RAW_SIZE >= 0,
    ;
    assert forall|i: int| 0 <= i < records.len() implies (#[trigger] records[i]).len()
        == RECORD_SIZE by {
        assert(0 <= i * RECORD_SIZE && i * RECORD_SIZE + RECORD_SIZE
            <= SEGMENT_RAW_SIZE) by (nonlinear_arith)
            requires
                0 <= i < RECORDS_PER_SEGMENT,
                RECORD_SIZE * RECORDS_PER_SEGMENT == SEGMENT_RAW_SIZE,
                RECORD_SIZE >= 0,
        ;
    }
    assert forall|i: int| 0 <= i < subset.len() implies ((#[trigger] subset[i]) matches Some(p)
        ==> p.wf() && p.record@ == crate::erasure::codeword_of(records)[i]) by {
        if subset[i] is Some {
            assert(crate::builder::piece_matches(seg.pieces@[i], records, i));
        }
    }
    assert(pieces_consistent(subset, records));
    assert forall|bytes: Seq<u8>| #[trigger] reconstructs_to(subset, bytes) implies bytes
        == combined.subrange(j * SEGMENT_RAW_SIZE, j * SEGMENT_RAW_SIZE + SEGMENT_RAW_SIZE) by {
        assert(bytes == concat_all(records));
        assert(j * SEGMENT_RAW_SIZE + RECORDS_PER_SEGMENT * RECORD_SIZE == j * SEGMENT_RAW_SIZE
            + SEGMENT_RAW_SIZE) by (nonlinear_arith)
            requires
                RECORD_SIZE * RECORDS_PER_SEGMENT == SEGMENT_RAW_SIZE,
        ;
        crate::bytes::lemma_concat_all_slices(
            combined,
            j * SEGMENT_RAW_SIZE,
            RECORDS_PER_SEGMENT as int,
            RECORD_SIZE as int,
        );
        assert(records =~= crate::bytes::slices_of(
            combined,
            j * SEGMENT_RAW_SIZE,
            RECORDS_PER_SEGMENT as int,
            RECORD_SIZE as int,
        ));
    }
}

/// Determinism: two sparse piece arrays drawn from one codeword, each with
/// enough present slots, are forced to reconstruct to identical bytes.
pub proof fn lemma_reconstruction_deterministic(
    a: Seq<Option<Piece>>,
    b: Seq<Option<Piece>>,
    source: Seq<Seq<u8>>,
    bytes_a: Seq<u8>,
    bytes_b: Seq<u8>,
)
    requires
        source_wf(source),
        pieces_consistent(a, source),
        pieces_consistent(b, source),
        count_present(a) >= RECORDS_PER_SEGMENT,
        count_present(b) >= RECORDS_PER_SEGMENT,
        reconstructs_to(a, bytes_a),
        reconstructs_to(b, bytes_b),
    ensures
        bytes_a == bytes_b,
{
    assert(bytes_a == concat_all(source));
    assert(bytes_b == concat_all(source));
}

/// The present count of a sparse sequence never exceeds its length.
pub proof fn lemma_count_present_bound<T>(s: Seq<Option<T>>)
    ensures
        count_present(s) <= s.len(),
    decreases s.len(),
{
    if s.len() > 0 {
        lemma_count_present_bound(s.drop_last());
    }
}

/// A sparse sequence with an absent entry has fewer present entries than its
/// length.
pub proof fn lemma_count_present_absent<T>(s: Seq<Option<T>>, i: int)
    requires
        0 <= i < s.len(),
        s[i] is None,
    ensures
        count_present(s) < s.len(),
    decreases s.len(),
{
    if i == s.len() - 1 {
        assert(s.last() == s[i]);
        lemma_count_present_bound(s.drop_last());
    } else {
        lemma_count_present_absent(s.drop_last(), i);
    }
}

} // verus!
