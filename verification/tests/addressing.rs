//! Piece addressing, segment layout, commitments, and command data.

use subspace_data_retrieval::builder::SegmentBuilder;
use subspace_data_retrieval::commands::{
    CacheArgs, ClusterSubcommand, ControllerArgs, GatewayOptions, NetworkArgs,
};
use subspace_data_retrieval::commitments::{commit, prove, verify};
use subspace_data_retrieval::objects::BlockObjectMapping;
use subspace_data_retrieval::pieces::{COMMITMENT_SIZE, PieceIndex, WITNESS_SIZE};
use subspace_data_retrieval::segments::{
    MAX_SEGMENT_INDEX, PIECES_PER_SEGMENT, RECORDS_PER_SEGMENT, SEGMENT_RAW_SIZE, Segment,
    SegmentIndex,
};

#[test]
fn piece_index_composes_and_decomposes() {
    let piece_index = PieceIndex::new(SegmentIndex(12), 200);
    assert_eq!(piece_index.0, 12 * PIECES_PER_SEGMENT as u64 + 200);
    assert_eq!(piece_index.segment_index(), SegmentIndex(12));
    assert_eq!(piece_index.position(), 200);
    let largest = PieceIndex::new(SegmentIndex(MAX_SEGMENT_INDEX), PIECES_PER_SEGMENT - 1);
    assert_eq!(largest.0, u64::MAX);
    assert_eq!(largest.segment_index(), SegmentIndex(MAX_SEGMENT_INDEX));
    assert_eq!(largest.position(), PIECES_PER_SEGMENT - 1);
}

#[test]
fn source_positions_come_first() {
    assert!(PieceIndex::new(SegmentIndex(4), 0).is_source());
    assert!(PieceIndex::new(SegmentIndex(4), RECORDS_PER_SEGMENT - 1).is_source());
    assert!(!PieceIndex::new(SegmentIndex(4), RECORDS_PER_SEGMENT).is_source());
    assert!(!PieceIndex::new(SegmentIndex(4), PIECES_PER_SEGMENT - 1).is_source());
}

#[test]
fn source_first_order_lists_every_piece() {
    let indexes = SegmentIndex(2).segment_piece_indexes_source_first();
    assert_eq!(indexes.len(), PIECES_PER_SEGMENT);
    for (i, piece_index) in indexes.iter().enumerate() {
        assert_eq!(piece_index.0, 2 * PIECES_PER_SEGMENT as u64 + i as u64);
        assert_eq!(piece_index.is_source(), i < RECORDS_PER_SEGMENT);
    }
}

#[test]
fn segment_layout_is_enforced() {
    let segment = Segment::from_bytes(vec![7u8; SEGMENT_RAW_SIZE]).unwrap();
    assert_eq!(segment.as_bytes().len(), SEGMENT_RAW_SIZE);
    let error = Segment::from_bytes(vec![7u8; SEGMENT_RAW_SIZE - 1]).unwrap_err();
    assert_eq!(error.actual_len, SEGMENT_RAW_SIZE - 1);
}

#[test]
fn commitments_bind_record_and_position() {
    let record = vec![42u8; 64];
    let commitment = commit(&record);
    let witness = prove(&record, 17);
    assert_eq!(commitment.len(), COMMITMENT_SIZE);
    assert_eq!(witness.len(), WITNESS_SIZE);
    assert!(verify(&commitment, &witness, 17, &record));
    // A different position makes a different witness.
    assert!(!verify(&commitment, &witness, 18, &record));
    assert_ne!(witness, prove(&record, 18));
    // A tampered record fails both checks.
    let mut tampered = record.clone();
    tampered[0] ^= 1;
    assert!(!verify(&commitment, &witness, 17, &tampered));
    // Different records commit differently, and the digest is not the
    // record handed back.
    let other = vec![43u8; 64];
    assert_ne!(commit(&other), commitment);
    assert_ne!(commitment[..], record[..COMMITMENT_SIZE]);
}

#[test]
fn built_pieces_verify_against_their_commitments() {
    let bytes: Vec<u8> = (0..SEGMENT_RAW_SIZE).map(|i| (i % 256) as u8).collect();
    let mut builder = SegmentBuilder::new();
    let segments = builder.add_block(&bytes, &BlockObjectMapping::empty(), false).unwrap();
    for (position, piece) in segments[0].pieces.iter().enumerate() {
        assert!(verify(&piece.commitment, &piece.witness, position, &piece.record));
    }
    // A witness does not carry over to another position's piece.
    let first = &segments[0].pieces[0];
    let second = &segments[0].pieces[1];
    assert!(!verify(&first.commitment, &first.witness, 0, &second.record));
}

#[test]
fn extract_additional_components_takes_everything() {
    let mut subcommand = ClusterSubcommand::Controller(ControllerArgs {
        additional_components: vec!["farmer".to_string(), "cache".to_string()],
    });
    let components = subcommand.extract_additional_components();
    assert_eq!(components, vec!["farmer".to_string(), "cache".to_string()]);
    let again = subcommand.extract_additional_components();
    assert!(again.is_empty());
    assert!(matches!(subcommand, ClusterSubcommand::Controller(_)));

    let mut cache = ClusterSubcommand::Cache(CacheArgs { additional_components: Vec::new() });
    assert!(cache.extract_additional_components().is_empty());
}

#[test]
fn dev_mode_implies_private_addresses() {
    let mut options = GatewayOptions {
        dev: true,
        max_size: 1024,
        dsn_options: NetworkArgs { allow_private_ips: false, out_connections: 8 },
    };
    options.apply_dev_defaults();
    assert!(options.dsn_options.allow_private_ips);

    let mut plain = GatewayOptions {
        dev: false,
        max_size: 1024,
        dsn_options: NetworkArgs { allow_private_ips: false, out_connections: 8 },
    };
    plain.apply_dev_defaults();
    assert!(!plain.dsn_options.allow_private_ips);
}
