//! The builder's carry buffer, padding, numbering and object translation.

use subspace_data_retrieval::builder::{BuilderError, SegmentBuilder};
use subspace_data_retrieval::objects::{BlockObject, BlockObjectMapping};
use subspace_data_retrieval::segments::{
    MAX_SEGMENT_INDEX, PIECES_PER_SEGMENT, RECORD_SIZE, SEGMENT_RAW_SIZE,
};

fn patterned(len: usize, seed: u8) -> Vec<u8> {
    (0..len).map(|i| (i as u8).wrapping_mul(31).wrapping_add(seed)).collect()
}

#[test]
fn partial_block_stays_buffered() {
    let mut builder = SegmentBuilder::new();
    let segments = builder
        .add_block(&patterned(5000, 1), &BlockObjectMapping::empty(), false)
        .unwrap();
    assert!(segments.is_empty());
    assert_eq!(builder.buffer.len(), 5000);
    assert_eq!(builder.next_segment_index, 0);
}

#[test]
fn buffered_bytes_complete_a_segment() {
    let mut builder = SegmentBuilder::new();
    let first = patterned(5000, 1);
    let second = patterned(5000, 2);
    builder.add_block(&first, &BlockObjectMapping::empty(), false).unwrap();
    let segments = builder.add_block(&second, &BlockObjectMapping::empty(), false).unwrap();
    assert_eq!(segments.len(), 1);
    assert_eq!(segments[0].segment_index.0, 0);
    assert_eq!(segments[0].pieces.len(), PIECES_PER_SEGMENT);
    // Source pieces carry the stream's bytes in order.
    let mut stream = first.clone();
    stream.extend_from_slice(&second);
    for (position, piece) in segments[0].pieces[..SEGMENT_RAW_SIZE / RECORD_SIZE].iter().enumerate()
    {
        assert_eq!(
            piece.record,
            stream[position * RECORD_SIZE..(position + 1) * RECORD_SIZE].to_vec()
        );
    }
    // The remainder is carried over.
    assert_eq!(builder.buffer, stream[SEGMENT_RAW_SIZE..].to_vec());
    assert_eq!(builder.next_segment_index, 1);
}

#[test]
fn force_finalize_pads_with_zeros() {
    let mut builder = SegmentBuilder::new();
    let block = patterned(100, 3);
    let segments = builder.add_block(&block, &BlockObjectMapping::empty(), true).unwrap();
    assert_eq!(segments.len(), 1);
    assert!(builder.buffer.is_empty());
    let first_record = &segments[0].pieces[0].record;
    assert_eq!(&first_record[..64], &block[..64]);
    let second_record = &segments[0].pieces[1].record;
    assert_eq!(&second_record[..36], &block[64..]);
    assert!(second_record[36..].iter().all(|&b| b == 0));
    assert!(segments[0].pieces[2].record.iter().all(|&b| b == 0));
}

#[test]
fn padding_never_applies_mid_stream() {
    let mut builder = SegmentBuilder::new();
    let segments = builder
        .add_block(&patterned(SEGMENT_RAW_SIZE + 10, 4), &BlockObjectMapping::empty(), false)
        .unwrap();
    assert_eq!(segments.len(), 1);
    assert_eq!(builder.buffer.len(), 10);
}

#[test]
fn segment_numbers_increase_across_calls() {
    let mut builder = SegmentBuilder::new();
    let segments = builder
        .add_block(&patterned(2 * SEGMENT_RAW_SIZE, 5), &BlockObjectMapping::empty(), false)
        .unwrap();
    assert_eq!(segments.len(), 2);
    assert_eq!(segments[0].segment_index.0, 0);
    assert_eq!(segments[1].segment_index.0, 1);
    let more = builder
        .add_block(&patterned(SEGMENT_RAW_SIZE, 6), &BlockObjectMapping::empty(), false)
        .unwrap();
    assert_eq!(more.len(), 1);
    assert_eq!(more[0].segment_index.0, 2);
}

#[test]
fn empty_block_emits_nothing() {
    let mut builder = SegmentBuilder::new();
    let segments = builder.add_block(&Vec::new(), &BlockObjectMapping::empty(), false).unwrap();
    assert!(segments.is_empty());
    let padded = builder.add_block(&Vec::new(), &BlockObjectMapping::empty(), true).unwrap();
    assert!(padded.is_empty());
}

#[test]
fn objects_are_translated_to_piece_coordinates() {
    let mut builder = SegmentBuilder::new();
    let mapping = BlockObjectMapping {
        objects: vec![BlockObject { offset: 0 }, BlockObject { offset: 200 }],
    };
    let segments = builder.add_block(&patterned(SEGMENT_RAW_SIZE, 7), &mapping, false).unwrap();
    assert_eq!(segments.len(), 1);
    let objects = &segments[0].objects;
    assert_eq!(objects.len(), 2);
    assert_eq!(objects[0].piece_index.position(), 0);
    assert_eq!(objects[0].offset, 0);
    // Offset 200 lands in the fourth record, 8 bytes in.
    assert_eq!(objects[1].piece_index.position(), 3);
    assert_eq!(objects[1].piece_index.segment_index().0, 0);
    assert_eq!(objects[1].offset, 8);
}

#[test]
fn buffered_objects_emerge_with_their_segment() {
    let mut builder = SegmentBuilder::new();
    // The object sits at stream offset 4000, inside the first segment, but
    // no segment is complete yet.
    let mapping = BlockObjectMapping { objects: vec![BlockObject { offset: 4000 }] };
    let none = builder.add_block(&patterned(5000, 8), &mapping, false).unwrap();
    assert!(none.is_empty());
    // The next block completes the first segment, which carries the object.
    let segments = builder
        .add_block(&patterned(SEGMENT_RAW_SIZE, 9), &BlockObjectMapping::empty(), false)
        .unwrap();
    assert_eq!(segments.len(), 1);
    assert_eq!(segments[0].objects.len(), 1);
    assert_eq!(segments[0].objects[0].piece_index.position(), 4000 / RECORD_SIZE);
    assert_eq!(segments[0].objects[0].offset, 4000 % RECORD_SIZE);
}

#[test]
fn objects_in_later_segments_use_later_numbers() {
    let mut builder = SegmentBuilder::new();
    let mapping = BlockObjectMapping {
        objects: vec![BlockObject { offset: SEGMENT_RAW_SIZE + 70 }],
    };
    let segments = builder
        .add_block(&patterned(2 * SEGMENT_RAW_SIZE, 10), &mapping, false)
        .unwrap();
    assert_eq!(segments.len(), 2);
    assert!(segments[0].objects.is_empty());
    assert_eq!(segments[1].objects.len(), 1);
    assert_eq!(segments[1].objects[0].piece_index.segment_index().0, 1);
    assert_eq!(segments[1].objects[0].piece_index.position(), 1);
    assert_eq!(segments[1].objects[0].offset, 6);
}

#[test]
fn invalid_object_offset_is_rejected_without_effect() {
    let mut builder = SegmentBuilder::new();
    let block = patterned(100, 11);
    let mapping = BlockObjectMapping { objects: vec![BlockObject { offset: 100 }] };
    let error = builder.add_block(&block, &mapping, false).unwrap_err();
    assert_eq!(error, BuilderError::InvalidObjectOffset { offset: 100, block_len: 100 });
    assert!(builder.buffer.is_empty());
    assert_eq!(builder.next_segment_index, 0);
}

#[test]
fn exhausted_segment_numbers_are_rejected_without_effect() {
    let mut builder = SegmentBuilder::new();
    builder.next_segment_index = MAX_SEGMENT_INDEX + 1;
    let error = builder
        .add_block(&patterned(SEGMENT_RAW_SIZE, 12), &BlockObjectMapping::empty(), false)
        .unwrap_err();
    assert_eq!(error, BuilderError::SegmentIndexExhausted);
    assert!(builder.buffer.is_empty());
    // Ingestion that completes no segment still succeeds at the boundary.
    let segments = builder.add_block(&patterned(10, 13), &BlockObjectMapping::empty(), false).unwrap();
    assert!(segments.is_empty());
}
