//! The segment acquisition protocol: request a segment's pieces in
//! shrinking batches over an unreliable, possibly adversarial network, until
//! enough are in hand to reconstruct the segment.
//!
//! Failed indices are never retried: progress comes from drawing further,
//! different indices in later batches, with a pause after a degraded batch.

use crate::erasure::{count_present, lemma_count_present_fill};
use crate::pieces::{Piece, PieceIndex};
use crate::reconstructor::{ReconstructorError, SegmentReconstructor, pieces_wf};
use crate::segments::{PIECES_PER_SEGMENT, RECORDS_PER_SEGMENT, Segment, SegmentIndex};
use vstd::prelude::*;

verus! {

/// The resolved outcome the network reports for one requested piece index.
#[derive(Clone, Debug)]
pub enum PieceResponse {
    /// The piece was retrieved.
    Found(Piece),
    /// A peer answered that it does not have the piece.
    NotFound,
    /// The request for this index failed in transport.
    Failed,
}

/// The network collaborator could not serve a batch request at all.
#[derive(Clone, Debug, PartialEq, Eq)]
pub struct PieceGetterFailure {
    /// The collaborator's description of what went wrong.
    pub message: String,
}

/// The network collaborator.  Asked for a finite batch of piece indices, it
/// reports each requested index exactly once, resolved in completion order;
/// after a degraded batch it is asked to pause, so a struggling network is
/// not hammered.  The orchestrator defends against responses that break this
/// protocol, so no contract is imposed on implementations.
pub trait PieceGetter {
    /// Requests the pieces at `piece_indices`; the outcomes come back in
    /// completion order.
    fn get_pieces(&mut self, piece_indices: Vec<PieceIndex>) -> Result<
        Vec<(PieceIndex, PieceResponse)>,
        PieceGetterFailure,
    >;

    /// Observes one backoff delay after a degraded batch; implementations
    /// sleep here, typically for one second.
    fn pause(&mut self);
}

/// Acquisition of one segment's pieces could not be completed.
#[derive(Clone, Debug, PartialEq, Eq)]
pub enum SegmentDownloadingError {
    /// The index space was exhausted before enough pieces were in hand.
    NotEnoughPieces {
        /// The segment whose pieces were being acquired.
        segment_index: SegmentIndex,
        /// How many pieces had been downloaded when the indices ran out.
        downloaded_pieces: usize,
    },
    /// The network collaborator could not serve a batch request.
    PieceGetterError {
        /// The collaborator's failure.
        source: PieceGetterFailure,
    },
    /// The downloaded pieces could not be turned back into a segment.
    SegmentReconstruction {
        /// The reconstructor's failure.
        source: ReconstructorError,
    },
}

/// The phases of one segment acquisition.
#[derive(Clone, Copy, Debug, PartialEq, Eq, Structural)]
pub enum AcquisitionState {
    /// Drawing and requesting batches of piece indices.
    Requesting,
    /// A batch was degraded; a pause is due before the next batch.
    BackoffDelay,
    /// Enough pieces are in hand; reconstruction may begin.
    Reconstructing,
    /// The pieces were handed off to reconstruction.
    Done,
    /// The index space was exhausted before enough pieces were in hand.
    Failed,
}

/// An explicit, inspectable cursor over the source-first ordering of one
/// segment's piece indices: all source positions first, then all parity
/// positions, each drawn at most once.
#[derive(Clone, Copy, Debug)]
pub struct PieceCursor {
    /// The segment whose indices are drawn.
    pub segment_index: SegmentIndex,
    /// The next position to draw, in source-first order.
    pub next_position: usize,
}

impl PieceCursor {
    /// The cursor's invariant.
    pub open spec fn wf(self) -> bool {
        &&& self.segment_index.addressable()
        &&& self.next_position <= PIECES_PER_SEGMENT
    }

    /// A cursor over all piece indices of `segment_index`.
    pub fn new(segment_index: SegmentIndex) -> (r: PieceCursor)
        requires
            segment_index.addressable(),
        ensures
            r.wf(),
            r.segment_index == segment_index,
            r.next_position == 0,
    {
        PieceCursor { segment_index, next_position: 0 }
    }

    /// Whether every index has been drawn.
    pub fn is_empty(&self) -> (r: bool)
        ensures
            r == (self.next_position == PIECES_PER_SEGMENT),
    {
        self.next_position == PIECES_PER_SEGMENT
    }

    /// The next index to be drawn, if any is left.
    pub fn peek_next(&self) -> (r: Option<PieceIndex>)
        requires
            self.wf(),
        ensures
            self.next_position < PIECES_PER_SEGMENT <==> (r matches Some(piece_index)
                && piece_index.0 == self.segment_index.0 * PIECES_PER_SEGMENT
                + self.next_position),
            self.next_position == PIECES_PER_SEGMENT <==> r is None,
    {
        if self.next_position < PIECES_PER_SEGMENT {
            Some(PieceIndex::new(self.segment_index, self.next_position))
        } else {
            None
        }
    }

    /// Draws up to `count` further indices, in source-first order.
    pub fn take_batch(&mut self, count: usize) -> (r: Vec<PieceIndex>)
        requires
            old(self).wf(),
        ensures
            final(self).wf(),
            final(self).segment_index == old(self).segment_index,
            r@.len() == if count <= PIECES_PER_SEGMENT - old(self).next_position {
                count as int
            } else {
                PIECES_PER_SEGMENT - old(self).next_position
            },
            final(self).next_position == old(self).next_position + r@.len(),
            forall|i: int|
                0 <= i < r@.len() ==> (#[trigger] r@[i]).0 == old(self).segment_index.0
                    * PIECES_PER_SEGMENT + old(self).next_position + i,
    {
        let remaining = PIECES_PER_SEGMENT - self.next_position;
        let take_n = if count <= remaining {
            count
        } else {
            remaining
        };
        let mut batch: Vec<PieceIndex> = Vec::new();
        let mut k: usize = 0;
        while k < take_n
            invariant
                k <= take_n,
                self.segment_index == old(self).segment_index,
                self.segment_index.addressable(),
                self.next_position == old(self).next_position + k,
                old(self).next_position + take_n <= PIECES_PER_SEGMENT,
                batch@.len() == k,
                forall|i: int|
                    0 <= i < k ==> (#[trigger] batch@[i]).0 == self.segment_index.0
                        * PIECES_PER_SEGMENT + old(self).next_position + i,
            decreases take_n - k,
        {
            batch.push(PieceIndex::new(self.segment_index, self.next_position));
            self.next_position = self.next_position + 1;
            k = k + 1;
        }
        batch
    }
}

/// A batch drawn at `start`: `len` consecutive indices of `segment_index`
/// in source-first order.
pub open spec fn batch_spec(
    segment_index: SegmentIndex,
    start: int,
    len: int,
    batch: Seq<PieceIndex>,
) -> bool {
    &&& batch.len() == len
    &&& forall|i: int|
        0 <= i < len ==> (#[trigger] batch[i]).0 == segment_index.0 * PIECES_PER_SEGMENT + start
            + i
}

/// Ordering: the batch a fresh acquisition requests first consists
/// exclusively of source-position indices.
pub proof fn lemma_first_batch_is_source(segment_index: SegmentIndex, batch: Seq<PieceIndex>)
    requires
        segment_index.addressable(),
        batch_spec(segment_index, 0, RECORDS_PER_SEGMENT as int, batch),
    ensures
        forall|i: int| 0 <= i < batch.len() ==> (#[trigger] batch[i]).is_source_spec(),
{
    assert forall|i: int| 0 <= i < batch.len() implies (#[trigger] batch[i]).is_source_spec() by {
        crate::pieces::lemma_piece_address(segment_index.0 as int, i);
        assert(batch[i].0 == segment_index.0 * PIECES_PER_SEGMENT + i);
    }
}

/// The driver of one segment's acquisition: a state machine over the states
/// of [`AcquisitionState`], drawing batches of exactly the still-needed size
/// from a source-first cursor, storing each retrieved piece at its slot, and
/// stopping as soon as the recovery threshold is met or the index space is
/// exhausted.
#[derive(Debug)]
pub struct PieceAcquisitionOrchestrator {
    /// The segment whose pieces are acquired.
    pub segment_index: SegmentIndex,
    /// The cursor over the still-undrawn piece indices.
    pub cursor: PieceCursor,
    /// One slot per piece position; retrieved pieces are stored at theirs.
    pub slots: Vec<Option<Piece>>,
    /// How many pieces have been stored.
    pub downloaded: usize,
    /// The current phase.
    pub state: AcquisitionState,
    /// Whether a requested batch's outcomes are still being consumed.
    pub in_flight: bool,
    /// First position of the batch in flight.
    pub batch_start: usize,
    /// One past the last position of the batch in flight.
    pub batch_end: usize,
    /// Whether the batch in flight saw a not-found, a failure, or a
    /// protocol-breaking response.
    pub batch_degraded: bool,
}

impl PieceAcquisitionOrchestrator {
    /// The orchestrator's invariant.
    pub open spec fn wf(self) -> bool {
        &&& self.segment_index.addressable()
        &&& self.cursor.wf()
        &&& self.cursor.segment_index == self.segment_index
        &&& !(self.state is Done) ==> {
            &&& self.slots@.len() == PIECES_PER_SEGMENT
            &&& self.downloaded == count_present(self.slots@)
            &&& self.downloaded <= RECORDS_PER_SEGMENT
            &&& pieces_wf(self.slots@)
            &&& forall|i: int|
                self.cursor.next_position <= i < self.slots@.len() ==> (#[trigger] self.slots@[i])
                    is None
            &&& self.batch_start <= self.batch_end <= self.cursor.next_position
        }
        &&& self.in_flight ==> self.state is Requesting
        &&& self.state is Requesting && !self.in_flight ==> self.downloaded < RECORDS_PER_SEGMENT
            && self.cursor.next_position < PIECES_PER_SEGMENT
        &&& self.state is BackoffDelay ==> self.downloaded < RECORDS_PER_SEGMENT
        &&& self.state is Reconstructing ==> self.downloaded == RECORDS_PER_SEGMENT
        &&& self.state is Failed ==> self.downloaded < RECORDS_PER_SEGMENT
            && self.cursor.next_position == PIECES_PER_SEGMENT
    }

    /// A fresh acquisition for `segment_index`: requesting, nothing drawn,
    /// nothing downloaded.
    pub fn new(segment_index: SegmentIndex) -> (r: PieceAcquisitionOrchestrator)
        requires
            segment_index.addressable(),
        ensures
            r.wf(),
            r.segment_index == segment_index,
            r.state is Requesting,
            !r.in_flight,
            r.downloaded == 0,
            r.cursor.next_position == 0,
    {
        let mut slots: Vec<Option<Piece>> = Vec::new();
        let mut i: usize = 0;
        while i < PIECES_PER_SEGMENT
            invariant
                i <= PIECES_PER_SEGMENT,
                slots@.len() == i,
                count_present(slots@) == 0,
                forall|k: int| 0 <= k < i ==> (#[trigger] slots@[k]) is None,
            decreases PIECES_PER_SEGMENT - i,
        {
            let ghost prev = slots@;
            slots.push(None);
            proof {
                assert(slots@.drop_last() =~= prev);
            }
            i = i + 1;
        }
        PieceAcquisitionOrchestrator {
            segment_index,
            cursor: PieceCursor::new(segment_index),
            slots,
            downloaded: 0,
            state: AcquisitionState::Requesting,
            in_flight: false,
            batch_start: 0,
            batch_end: 0,
            batch_degraded: false,
        }
    }

    /// Draws the next batch to request: exactly as many indices as pieces
    /// are still needed, fewer only when the cursor runs out.  The batch
    /// shrinks as successes accumulate and never over-requests.
    pub fn next_batch(&mut self) -> (r: Vec<PieceIndex>)
        requires
            old(self).wf(),
            old(self).state is Requesting,
            !old(self).in_flight,
        ensures
            final(self).wf(),
            final(self).state is Requesting,
            final(self).in_flight,
            !final(self).batch_degraded,
            final(self).segment_index == old(self).segment_index,
            final(self).slots@ == old(self).slots@,
            final(self).downloaded == old(self).downloaded,
            r@.len() == if RECORDS_PER_SEGMENT - old(self).downloaded <= PIECES_PER_SEGMENT
                - old(self).cursor.next_position {
                RECORDS_PER_SEGMENT - old(self).downloaded
            } else {
                PIECES_PER_SEGMENT - old(self).cursor.next_position
            },
            1 <= r@.len() <= RECORDS_PER_SEGMENT - old(self).downloaded,
            batch_spec(
                old(self).segment_index,
                old(self).cursor.next_position as int,
                r@.len() as int,
                r@,
            ),
            final(self).batch_start == old(self).cursor.next_position,
            final(self).batch_end == old(self).cursor.next_position + r@.len(),
            final(self).cursor.next_position == old(self).cursor.next_position + r@.len(),
    {
        let needed = RECORDS_PER_SEGMENT - self.downloaded;
        self.batch_start = self.cursor.next_position;
        let batch = self.cursor.take_batch(needed);
        self.batch_end = self.cursor.next_position;
        self.in_flight = true;
        self.batch_degraded = false;
        batch
    }

    /// What the orchestrator accepts: a retrieved, well-formed piece for a
    /// still-empty slot of the batch in flight, while pieces are still
    /// needed.
    pub open spec fn accepts(
        self,
        piece_index: PieceIndex,
        response: PieceResponse,
    ) -> bool {
        &&& response matches PieceResponse::Found(piece) && piece.wf()
        &&& piece_index.segment_spec() == self.segment_index.0
        &&& self.batch_start <= piece_index.position_spec() < self.batch_end
        &&& self.slots@[piece_index.position_spec()] is None
        &&& self.downloaded < RECORDS_PER_SEGMENT
    }

    /// Consumes one outcome of the batch in flight, in completion order.
    ///
    /// An accepted piece is stored at its slot; anything else — an explicit
    /// not-found, a failed request, or a response that breaks the protocol —
    /// marks the batch degraded and is not individually retried.
    pub fn record_outcome(&mut self, piece_index: PieceIndex, response: PieceResponse) -> (accepted:
        bool)
        requires
            old(self).wf(),
            old(self).state is Requesting,
            old(self).in_flight,
        ensures
            final(self).wf(),
            final(self).state is Requesting,
            final(self).in_flight,
            final(self).segment_index == old(self).segment_index,
            final(self).cursor == old(self).cursor,
            final(self).batch_start == old(self).batch_start,
            final(self).batch_end == old(self).batch_end,
            accepted == old(self).accepts(piece_index, response),
            accepted ==> (response matches PieceResponse::Found(piece) && final(self).slots@
                == old(self).slots@.update(piece_index.position_spec(), Some(piece))
                && final(self).downloaded == old(self).downloaded + 1
                && final(self).batch_degraded == old(self).batch_degraded),
            !accepted ==> final(self).slots@ == old(self).slots@
                && final(self).downloaded == old(self).downloaded
                && final(self).batch_degraded,
    {
        match response {
            PieceResponse::Found(piece) => {
                let position = piece_index.position();
                let in_batch = self.batch_start <= position && position < self.batch_end;
                let same_segment = piece_index.segment_index().0 == self.segment_index.0;
                if in_batch && same_segment && piece.is_wf() && self.slots[position].is_none()
                    && self.downloaded < RECORDS_PER_SEGMENT {
                    let ghost prev = self.slots@;
                    self.slots.set(position, Some(piece));
                    self.downloaded = self.downloaded + 1;
                    proof {
                        lemma_count_present_fill(prev, position as int, piece);
                        assert forall|k: int|
                            0 <= k < self.slots@.len() implies ((#[trigger] self.slots@[k]) matches
                        Some(p) ==> p.wf()) by {
                            if k != position {
                                assert(self.slots@[k] == prev[k]);
                            }
                        }
                    }
                    true
                } else {
                    self.batch_degraded = true;
                    false
                }
            },
            PieceResponse::NotFound => {
                self.batch_degraded = true;
                false
            },
            PieceResponse::Failed => {
                self.batch_degraded = true;
                false
            },
        }
    }

    /// Closes the batch in flight and decides the next phase: reconstruction
    /// once enough pieces are in hand; otherwise a backoff pause if the
    /// batch was degraded; otherwise failure if the indices ran out; and
    /// otherwise the next request.
    pub fn complete_batch(&mut self) -> (state: AcquisitionState)
        requires
            old(self).wf(),
            old(self).state is Requesting,
            old(self).in_flight,
        ensures
            final(self).wf(),
            !final(self).in_flight,
            final(self).segment_index == old(self).segment_index,
            final(self).cursor == old(self).cursor,
            final(self).slots@ == old(self).slots@,
            final(self).downloaded == old(self).downloaded,
            state == final(self).state,
            final(self).state == (if old(self).downloaded == RECORDS_PER_SEGMENT {
                AcquisitionState::Reconstructing
            } else if old(self).batch_degraded {
                AcquisitionState::BackoffDelay
            } else if old(self).cursor.next_position == PIECES_PER_SEGMENT {
                AcquisitionState::Failed
            } else {
                AcquisitionState::Requesting
            }),
    {
        self.in_flight = false;
        if self.downloaded == RECORDS_PER_SEGMENT {
            self.state = AcquisitionState::Reconstructing;
        } else if self.batch_degraded {
            self.state = AcquisitionState::BackoffDelay;
        } else if self.cursor.is_empty() {
            self.state = AcquisitionState::Failed;
        } else {
            self.state = AcquisitionState::Requesting;
        }
        self.state
    }

    /// Leaves the backoff phase, after the pause was observed: back to
    /// requesting, or to failure if the indices have run out.
    pub fn resume(&mut self) -> (state: AcquisitionState)
        requires
            old(self).wf(),
            old(self).state is BackoffDelay,
        ensures
            final(self).wf(),
            !final(self).in_flight,
            final(self).segment_index == old(self).segment_index,
            final(self).cursor == old(self).cursor,
            final(self).slots@ == old(self).slots@,
            final(self).downloaded == old(self).downloaded,
            state == final(self).state,
            final(self).state == (if old(self).cursor.next_position == PIECES_PER_SEGMENT {
                AcquisitionState::Failed
            } else {
                AcquisitionState::Requesting
            }),
    {
        self.in_flight = false;
        if self.cursor.is_empty() {
            self.state = AcquisitionState::Failed;
        } else {
            self.state = AcquisitionState::Requesting;
        }
        self.state
    }

    /// The terminal failure: the index space was exhausted with too few
    /// pieces downloaded.
    pub fn failure(&self) -> (r: SegmentDownloadingError)
        requires
            self.wf(),
            self.state is Failed,
        ensures
            r == (SegmentDownloadingError::NotEnoughPieces {
                segment_index: self.segment_index,
                downloaded_pieces: self.downloaded,
            }),
            self.downloaded < RECORDS_PER_SEGMENT,
    {
        SegmentDownloadingError::NotEnoughPieces {
            segment_index: self.segment_index,
            downloaded_pieces: self.downloaded,
        }
    }

    /// Hands the sparse piece array off to reconstruction.
    pub fn take_pieces(&mut self) -> (r: Vec<Option<Piece>>)
        requires
            old(self).wf(),
            old(self).state is Reconstructing,
        ensures
            final(self).wf(),
            final(self).state is Done,
            r@ == old(self).slots@,
            r@.len() == PIECES_PER_SEGMENT,
            count_present(r@) == RECORDS_PER_SEGMENT,
            pieces_wf(r@),
    {
        let mut out: Vec<Option<Piece>> = Vec::new();
        core::mem::swap(&mut out, &mut self.slots);
        self.state = AcquisitionState::Done;
        out
    }
}

/// Downloads pieces of the segment such that the segment can be
/// reconstructed afterward.
///
/// Batches shrink to exactly the number of pieces still needed; a degraded
/// batch is followed by one pause of the getter; failed indices are never
/// redrawn.  On success exactly enough well-formed pieces are present; when
/// the index space is exhausted first, the error carries how many pieces had
/// been downloaded.
pub fn download_segment_pieces<PG: PieceGetter>(
    segment_index: SegmentIndex,
    piece_getter: &mut PG,
) -> (r: Result<Vec<Option<Piece>>, SegmentDownloadingError>)
    requires
        segment_index.addressable(),
    ensures
        r matches Ok(slots) ==> slots@.len() == PIECES_PER_SEGMENT && count_present(slots@)
            == RECORDS_PER_SEGMENT && pieces_wf(slots@),
        r matches Err(e) ==> ((e matches SegmentDownloadingError::NotEnoughPieces {
            segment_index: s,
            downloaded_pieces,
        } ==> s == segment_index && downloaded_pieces < RECORDS_PER_SEGMENT) && !(e
            is SegmentReconstruction)),
{
    let mut orchestrator = PieceAcquisitionOrchestrator::new(segment_index);
    loop
        invariant
            orchestrator.wf(),
            orchestrator.segment_index == segment_index,
            !orchestrator.in_flight,
            !(orchestrator.state is Done),
        decreases (PIECES_PER_SEGMENT - orchestrator.cursor.next_position) * 2 + (
        if orchestrator.state is BackoffDelay {
            1int
        } else {
            0int
        }),
    {
        match orchestrator.state {
            AcquisitionState::Requesting => {
                let ghost position_before = orchestrator.cursor.next_position;
                let batch = orchestrator.next_batch();
                match piece_getter.get_pieces(batch) {
                    Ok(mut outcomes) => {
                        // Consume the batch's outcomes in completion order.
                        while outcomes.len() > 0
                            invariant
                                orchestrator.wf(),
                                orchestrator.state is Requesting,
                                orchestrator.in_flight,
                                orchestrator.segment_index == segment_index,
                                position_before < orchestrator.cursor.next_position,
                            decreases outcomes@.len(),
                        {
                            let (piece_index, response) = outcomes.remove(0);
                            orchestrator.record_outcome(piece_index, response);
                        }
                        orchestrator.complete_batch();
                    },
                    Err(failure) => {
                        return Err(SegmentDownloadingError::PieceGetterError { source: failure });
                    },
                }
            },
            AcquisitionState::BackoffDelay => {
                piece_getter.pause();
                orchestrator.resume();
            },
            AcquisitionState::Reconstructing => {
                return Ok(orchestrator.take_pieces());
            },
            AcquisitionState::Failed => {
                return Err(orchestrator.failure());
            },
            AcquisitionState::Done => {
                proof {
                    assert(false);
                }
                return Err(orchestrator.failure());
            },
        }
    }
}

/// Downloads the pieces for `segment_index` and reconstructs the segment.
pub fn download_segment<PG: PieceGetter>(
    segment_index: SegmentIndex,
    piece_getter: &mut PG,
) -> (r: Result<Segment, SegmentDownloadingError>)
    requires
        segment_index.addressable(),
    ensures
        r matches Ok(segment) ==> segment.wf(),
        r matches Err(e) ==> ((e matches SegmentDownloadingError::NotEnoughPieces {
            segment_index: s,
            downloaded_pieces,
        } ==> s == segment_index && downloaded_pieces < RECORDS_PER_SEGMENT) && !(e
            is SegmentReconstruction)),
{
    let segment_pieces = match download_segment_pieces(segment_index, piece_getter) {
        Ok(segment_pieces) => segment_pieces,
        Err(e) => {
            return Err(e);
        },
    };
    let reconstructor = SegmentReconstructor::new();
    match reconstructor.reconstruct_segment(&segment_pieces) {
        Ok(segment) => Ok(segment),
        Err(source) => {
            // Enough well-formed pieces are present, so reconstruction
            // cannot refuse them.
            proof {
                assert(false);
            }
            Err(SegmentDownloadingError::SegmentReconstruction { source })
        },
    }
}

} // verus!
