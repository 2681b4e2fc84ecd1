//! Piece-level data model: global piece addressing and pieces themselves.

use crate::segments::{
    MAX_SEGMENT_INDEX, PIECES_PER_SEGMENT, RECORDS_PER_SEGMENT, RECORD_SIZE, SegmentIndex,
};
use vstd::prelude::*;

verus! {

/// Size of a piece commitment in bytes.
pub const COMMITMENT_SIZE: usize = 32;

/// Size of a piece witness in bytes.
pub const WITNESS_SIZE: usize = 32;

/// Global address of one piece: a bijection with
/// `(segment, position in [0, PIECES_PER_SEGMENT))`, ordered so that within a
/// segment all source positions come before all parity positions.
#[derive(Clone, Copy, PartialEq, Eq, Structural, Debug, Hash)]
pub struct PieceIndex(pub u64);

impl PieceIndex {
    /// The segment this piece belongs to.
    pub open spec fn segment_spec(self) -> int {
        self.0 as int / PIECES_PER_SEGMENT as int
    }

    /// The position of this piece within its segment.
    pub open spec fn position_spec(self) -> int {
        self.0 as int % PIECES_PER_SEGMENT as int
    }

    /// Source positions carry original records; the rest carry parity.
    pub open spec fn is_source_spec(self) -> bool {
        self.position_spec() < RECORDS_PER_SEGMENT
    }

    /// Composes the address of the piece at `position` of `segment_index`.
    pub fn new(segment_index: SegmentIndex, position: usize) -> (r: PieceIndex)
        requires
            segment_index.addressable(),
            position < PIECES_PER_SEGMENT,
        ensures
            r.0 == segment_index.0 * PIECES_PER_SEGMENT + position,
            r.segment_spec() == segment_index.0,
            r.position_spec() == position,
    {
        proof {
            lemma_piece_address(segment_index.0 as int, position as int);
        }
        PieceIndex(segment_index.0 * 256 + position as u64)
    }

    /// The segment this piece belongs to.
    pub fn segment_index(&self) -> (r: SegmentIndex)
        ensures
            r.0 == self.segment_spec(),
            r.addressable(),
    {
        SegmentIndex(self.0 / 256)
    }

    /// The position of this piece within its segment.
    pub fn position(&self) -> (r: usize)
        ensures
            r == self.position_spec(),
            r < PIECES_PER_SEGMENT,
    {
        (self.0 % 256) as usize
    }

    /// Whether this piece carries a source record.
    pub fn is_source(&self) -> (r: bool)
        ensures
            r == self.is_source_spec(),
    {
        self.position() < RECORDS_PER_SEGMENT
    }
}

impl SegmentIndex {
    /// All piece indices of this segment in source-first order: every
    /// source position before every parity position.
    pub fn segment_piece_indexes_source_first(&self) -> (r: Vec<PieceIndex>)
        requires
            self.addressable(),
        ensures
            r@.len() == PIECES_PER_SEGMENT,
            forall|i: int|
                0 <= i < r@.len() ==> (#[trigger] r@[i]).0 == self.0 * PIECES_PER_SEGMENT + i,
            forall|i: int|
                0 <= i < r@.len() ==> ((#[trigger] r@[i]).is_source_spec() <==> i
                    < RECORDS_PER_SEGMENT),
    {
        let mut indexes: Vec<PieceIndex> = Vec::new();
        let mut position: usize = 0;
        while position < PIECES_PER_SEGMENT
            invariant
                position <= PIECES_PER_SEGMENT,
                self.addressable(),
                indexes@.len() == position,
                forall|i: int|
                    0 <= i < position ==> (#[trigger] indexes@[i]).0 == self.0 * PIECES_PER_SEGMENT
                        + i,
                forall|i: int|
                    0 <= i < position ==> ((#[trigger] indexes@[i]).is_source_spec() <==> i
                        < RECORDS_PER_SEGMENT),
            decreases PIECES_PER_SEGMENT - position,
        {
            let piece_index = PieceIndex::new(*self, position);
            proof {
                lemma_piece_address(self.0 as int, position as int);
            }
            indexes.push(piece_index);
            position = position + 1;
        }
        indexes
    }
}

/// Piece addresses decompose uniquely: composing a segment number with a
/// position and decomposing again gives the same pair back.
pub proof fn lemma_piece_address(segment: int, position: int)
    requires
        0 <= segment <= MAX_SEGMENT_INDEX,
        0 <= position < PIECES_PER_SEGMENT,
    ensures
        0 <= segment * PIECES_PER_SEGMENT + position <= u64::MAX,
        (segment * PIECES_PER_SEGMENT + position) / (PIECES_PER_SEGMENT as int) == segment,
        (segment * PIECES_PER_SEGMENT + position) % (PIECES_PER_SEGMENT as int) == position,
{
    assert(segment * 256 + position <= MAX_SEGMENT_INDEX * 256 + 255) by (nonlinear_arith)
        requires
            0 <= segment <= MAX_SEGMENT_INDEX,
            0 <= position < 256,
    ;
    assert((segment * 256 + position) / 256 == segment && (segment * 256 + position) % 256
        == position) by (nonlinear_arith)
        requires
            0 <= segment,
            0 <= position < 256,
    ;
}

/// One independently retrievable, independently verifiable share of a
/// segment: a record-sized payload together with its commitment and witness.
#[derive(Clone, Debug, PartialEq, Eq)]
pub struct Piece {
    /// The erasure-coded record payload, of [`RECORD_SIZE`] bytes.
    pub record: Vec<u8>,
    /// Commitment to the record payload, of [`COMMITMENT_SIZE`] bytes.
    pub commitment: Vec<u8>,
    /// Witness binding the record to its position, of [`WITNESS_SIZE`] bytes.
    pub witness: Vec<u8>,
}

impl Piece {
    /// The fixed piece layout.
    pub open spec fn wf(self) -> bool {
        &&& self.record@.len() == RECORD_SIZE
        &&& self.commitment@.len() == COMMITMENT_SIZE
        &&& self.witness@.len() == WITNESS_SIZE
    }

    /// Whether this piece has the fixed piece layout.
    pub fn is_wf(&self) -> (r: bool)
        ensures
            r == self.wf(),
    {
        self.record.len() == RECORD_SIZE && self.commitment.len() == COMMITMENT_SIZE
            && self.witness.len() == WITNESS_SIZE
    }
}

} // verus!
