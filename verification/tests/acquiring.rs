//! The acquisition protocol: happy path, degraded networks, exhaustion,
//! ordering, and the orchestrator's defenses.

use subspace_data_retrieval::acquisition::{
    AcquisitionState, PieceAcquisitionOrchestrator, PieceCursor, PieceGetter, PieceGetterFailure,
    PieceResponse, SegmentDownloadingError, download_segment, download_segment_pieces,
};
use subspace_data_retrieval::builder::SegmentBuilder;
use subspace_data_retrieval::objects::BlockObjectMapping;
use subspace_data_retrieval::pieces::{Piece, PieceIndex};
use subspace_data_retrieval::segments::{
    PIECES_PER_SEGMENT, RECORDS_PER_SEGMENT, SEGMENT_RAW_SIZE, SegmentIndex,
};

fn segment_bytes() -> Vec<u8> {
    (0..SEGMENT_RAW_SIZE).map(|i| (i % 251) as u8).collect()
}

fn built_pieces(bytes: &[u8]) -> Vec<Piece> {
    let mut builder = SegmentBuilder::new();
    let mut segments = builder
        .add_block(&bytes.to_vec(), &BlockObjectMapping::empty(), false)
        .unwrap();
    segments.remove(0).pieces
}

/// Serves every requested index from a built piece store, failing the
/// positions for which `fails` says so.
struct StoreGetter {
    pieces: Vec<Piece>,
    fails: fn(usize) -> bool,
    calls: usize,
    pauses: usize,
    first_batch: Option<Vec<PieceIndex>>,
}

impl StoreGetter {
    fn new(pieces: Vec<Piece>, fails: fn(usize) -> bool) -> StoreGetter {
        StoreGetter { pieces, fails, calls: 0, pauses: 0, first_batch: None }
    }
}

impl PieceGetter for StoreGetter {
    fn get_pieces(
        &mut self,
        piece_indices: Vec<PieceIndex>,
    ) -> Result<Vec<(PieceIndex, PieceResponse)>, PieceGetterFailure> {
        self.calls += 1;
        if self.first_batch.is_none() {
            self.first_batch = Some(piece_indices.clone());
        }
        Ok(piece_indices
            .into_iter()
            .map(|piece_index| {
                let position = piece_index.position();
                let response = if (self.fails)(position) {
                    PieceResponse::Failed
                } else {
                    PieceResponse::Found(self.pieces[position].clone())
                };
                (piece_index, response)
            })
            .collect())
    }

    fn pause(&mut self) {
        self.pauses += 1;
    }
}

fn count_present(slots: &[Option<Piece>]) -> usize {
    slots.iter().filter(|slot| slot.is_some()).count()
}

#[test]
fn happy_path_takes_one_full_batch() {
    let pieces = built_pieces(&segment_bytes());
    let mut getter = StoreGetter::new(pieces, |_| false);
    let slots = download_segment_pieces(SegmentIndex(0), &mut getter).unwrap();
    assert_eq!(slots.len(), PIECES_PER_SEGMENT);
    assert_eq!(count_present(&slots), RECORDS_PER_SEGMENT);
    assert_eq!(getter.calls, 1);
    assert_eq!(getter.pauses, 0);
    let first_batch = getter.first_batch.unwrap();
    assert_eq!(first_batch.len(), RECORDS_PER_SEGMENT);
}

#[test]
fn first_batch_is_source_positions_only() {
    let pieces = built_pieces(&segment_bytes());
    let mut getter = StoreGetter::new(pieces, |_| false);
    download_segment_pieces(SegmentIndex(3), &mut getter).unwrap();
    let first_batch = getter.first_batch.unwrap();
    assert_eq!(first_batch.len(), RECORDS_PER_SEGMENT);
    for (i, piece_index) in first_batch.iter().enumerate() {
        assert!(piece_index.is_source());
        assert_eq!(piece_index.position(), i);
        assert_eq!(piece_index.segment_index(), SegmentIndex(3));
    }
}

#[test]
fn degraded_acquisition_succeeds_with_backoff() {
    let pieces = built_pieces(&segment_bytes());
    // Indices [0, 100) always fail; everything else succeeds.
    let mut getter = StoreGetter::new(pieces, |position| position < 100);
    let slots = download_segment_pieces(SegmentIndex(0), &mut getter).unwrap();
    assert_eq!(count_present(&slots), RECORDS_PER_SEGMENT);
    assert!(getter.pauses >= 1);
    for (position, slot) in slots.iter().enumerate() {
        assert_eq!(slot.is_some(), (100..228).contains(&position));
    }
}

#[test]
fn exhaustion_reports_zero_downloads() {
    let pieces = built_pieces(&segment_bytes());
    let mut getter = StoreGetter::new(pieces, |_| true);
    let error = download_segment_pieces(SegmentIndex(7), &mut getter).unwrap_err();
    assert_eq!(
        error,
        SegmentDownloadingError::NotEnoughPieces {
            segment_index: SegmentIndex(7),
            downloaded_pieces: 0,
        }
    );
    // Both batches cover the whole index space before giving up, and each
    // degraded batch is followed by one pause.
    assert_eq!(getter.calls, 2);
    assert_eq!(getter.pauses, 2);
}

#[test]
fn near_exhaustion_reports_partial_downloads() {
    let pieces = built_pieces(&segment_bytes());
    // Only 100 positions ever succeed: fewer than the threshold.
    let mut getter = StoreGetter::new(pieces, |position| position >= 100);
    let error = download_segment_pieces(SegmentIndex(0), &mut getter).unwrap_err();
    assert_eq!(
        error,
        SegmentDownloadingError::NotEnoughPieces {
            segment_index: SegmentIndex(0),
            downloaded_pieces: 100,
        }
    );
}

#[test]
fn not_found_counts_as_degradation() {
    let pieces = built_pieces(&segment_bytes());
    struct NotFoundGetter {
        inner: StoreGetter,
    }
    impl PieceGetter for NotFoundGetter {
        fn get_pieces(
            &mut self,
            piece_indices: Vec<PieceIndex>,
        ) -> Result<Vec<(PieceIndex, PieceResponse)>, PieceGetterFailure> {
            let outcomes = self.inner.get_pieces(piece_indices)?;
            Ok(outcomes
                .into_iter()
                .map(|(piece_index, response)| {
                    if piece_index.position() % 2 == 0 {
                        (piece_index, PieceResponse::NotFound)
                    } else {
                        (piece_index, response)
                    }
                })
                .collect())
        }
        fn pause(&mut self) {
            self.inner.pause();
        }
    }
    let mut getter = NotFoundGetter { inner: StoreGetter::new(pieces, |_| false) };
    let slots = download_segment_pieces(SegmentIndex(0), &mut getter).unwrap();
    assert_eq!(count_present(&slots), RECORDS_PER_SEGMENT);
    assert!(getter.inner.pauses >= 1);
}

#[test]
fn batch_failure_surfaces_getter_error() {
    struct BrokenGetter;
    impl PieceGetter for BrokenGetter {
        fn get_pieces(
            &mut self,
            _piece_indices: Vec<PieceIndex>,
        ) -> Result<Vec<(PieceIndex, PieceResponse)>, PieceGetterFailure> {
            Err(PieceGetterFailure { message: "no route to any peer".to_string() })
        }
        fn pause(&mut self) {}
    }
    let error = download_segment_pieces(SegmentIndex(0), &mut BrokenGetter).unwrap_err();
    assert_eq!(
        error,
        SegmentDownloadingError::PieceGetterError {
            source: PieceGetterFailure { message: "no route to any peer".to_string() },
        }
    );
}

#[test]
fn protocol_breaking_responses_are_ignored() {
    let pieces = built_pieces(&segment_bytes());
    // Answers every request with a piece for an index that was never part
    // of the batch in flight: nothing may be stored.
    struct LyingGetter {
        pieces: Vec<Piece>,
    }
    impl PieceGetter for LyingGetter {
        fn get_pieces(
            &mut self,
            piece_indices: Vec<PieceIndex>,
        ) -> Result<Vec<(PieceIndex, PieceResponse)>, PieceGetterFailure> {
            Ok(piece_indices
                .into_iter()
                .map(|_| {
                    (
                        PieceIndex::new(SegmentIndex(9), 0),
                        PieceResponse::Found(self.pieces[0].clone()),
                    )
                })
                .collect())
        }
        fn pause(&mut self) {}
    }
    let mut getter = LyingGetter { pieces };
    let error = download_segment_pieces(SegmentIndex(0), &mut getter).unwrap_err();
    assert_eq!(
        error,
        SegmentDownloadingError::NotEnoughPieces {
            segment_index: SegmentIndex(0),
            downloaded_pieces: 0,
        }
    );
}

#[test]
fn malformed_pieces_are_not_stored() {
    let mut pieces = built_pieces(&segment_bytes());
    for piece in pieces.iter_mut() {
        piece.record.pop();
    }
    let mut getter = StoreGetter::new(pieces, |_| false);
    let error = download_segment_pieces(SegmentIndex(0), &mut getter).unwrap_err();
    assert_eq!(
        error,
        SegmentDownloadingError::NotEnoughPieces {
            segment_index: SegmentIndex(0),
            downloaded_pieces: 0,
        }
    );
}

#[test]
fn download_segment_reconstructs_the_original_bytes() {
    let bytes = segment_bytes();
    let pieces = built_pieces(&bytes);
    // A degraded network that still has enough pieces.
    let mut getter = StoreGetter::new(pieces, |position| position % 3 == 0);
    let segment = download_segment(SegmentIndex(0), &mut getter).unwrap();
    assert_eq!(segment.into_bytes(), bytes);
}

#[test]
fn orchestrator_first_batch_is_all_source() {
    let mut orchestrator = PieceAcquisitionOrchestrator::new(SegmentIndex(5));
    assert_eq!(orchestrator.state, AcquisitionState::Requesting);
    let batch = orchestrator.next_batch();
    assert_eq!(batch.len(), RECORDS_PER_SEGMENT);
    for piece_index in &batch {
        assert!(piece_index.is_source());
    }
}

#[test]
fn orchestrator_batches_shrink_with_successes() {
    let pieces = built_pieces(&segment_bytes());
    let mut orchestrator = PieceAcquisitionOrchestrator::new(SegmentIndex(0));
    let batch = orchestrator.next_batch();
    // Half the first batch succeeds.
    for piece_index in batch {
        let position = piece_index.position();
        let response = if position % 2 == 0 {
            PieceResponse::Found(pieces[position].clone())
        } else {
            PieceResponse::Failed
        };
        orchestrator.record_outcome(piece_index, response);
    }
    assert_eq!(orchestrator.complete_batch(), AcquisitionState::BackoffDelay);
    assert_eq!(orchestrator.downloaded, 64);
    assert_eq!(orchestrator.resume(), AcquisitionState::Requesting);
    // The next batch asks for exactly what is still needed.
    let batch = orchestrator.next_batch();
    assert_eq!(batch.len(), RECORDS_PER_SEGMENT - 64);
    assert_eq!(batch[0].position(), RECORDS_PER_SEGMENT);
}

#[test]
fn orchestrator_reaches_reconstructing_at_threshold() {
    let pieces = built_pieces(&segment_bytes());
    let mut orchestrator = PieceAcquisitionOrchestrator::new(SegmentIndex(0));
    let batch = orchestrator.next_batch();
    for piece_index in batch {
        let position = piece_index.position();
        let accepted = orchestrator
            .record_outcome(piece_index, PieceResponse::Found(pieces[position].clone()));
        assert!(accepted);
    }
    assert_eq!(orchestrator.complete_batch(), AcquisitionState::Reconstructing);
    let slots = orchestrator.take_pieces();
    assert_eq!(orchestrator.state, AcquisitionState::Done);
    assert_eq!(count_present(&slots), RECORDS_PER_SEGMENT);
}

#[test]
fn duplicate_responses_are_rejected() {
    let pieces = built_pieces(&segment_bytes());
    let mut orchestrator = PieceAcquisitionOrchestrator::new(SegmentIndex(0));
    let batch = orchestrator.next_batch();
    let first = batch[0];
    assert!(orchestrator.record_outcome(first, PieceResponse::Found(pieces[0].clone())));
    // The same index again: the slot is taken, so the response is refused
    // and the batch is marked degraded.
    assert!(!orchestrator.record_outcome(first, PieceResponse::Found(pieces[0].clone())));
    assert!(orchestrator.batch_degraded);
    assert_eq!(orchestrator.downloaded, 1);
}

#[test]
fn cursor_draws_each_index_once_in_order() {
    let mut cursor = PieceCursor::new(SegmentIndex(2));
    assert!(!cursor.is_empty());
    let first = cursor.peek_next().unwrap();
    assert_eq!(first.position(), 0);
    assert_eq!(first.segment_index(), SegmentIndex(2));
    let batch = cursor.take_batch(200);
    assert_eq!(batch.len(), 200);
    assert_eq!(cursor.peek_next().unwrap().position(), 200);
    // The tail is truncated to what is left.
    let rest = cursor.take_batch(100);
    assert_eq!(rest.len(), PIECES_PER_SEGMENT - 200);
    assert!(cursor.is_empty());
    assert!(cursor.peek_next().is_none());
}
