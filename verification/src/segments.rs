//! Segment-level data model: sizes, segment addressing and recovered segments.

use vstd::prelude::*;

verus! {

/// Number of source records in one segment.
pub const RECORDS_PER_SEGMENT: usize = 128;

/// Number of pieces one segment is expanded into.  Positions
/// `[0, RECORDS_PER_SEGMENT)` carry the source records themselves, the
/// remaining positions carry parity records.
pub const PIECES_PER_SEGMENT: usize = 256;

/// Number of parity pieces per segment.
pub const PARITY_PIECES_PER_SEGMENT: usize = PIECES_PER_SEGMENT - RECORDS_PER_SEGMENT;

/// Size of one record (and of one piece's record payload) in bytes.
pub const RECORD_SIZE: usize = 64;

/// Raw size of one segment in bytes: the bytes of its source records.
pub const SEGMENT_RAW_SIZE: usize = RECORD_SIZE * RECORDS_PER_SEGMENT;

/// Largest segment number whose pieces are still addressable: piece numbers
/// are `segment * PIECES_PER_SEGMENT + position` within `u64`.
pub const MAX_SEGMENT_INDEX: u64 = (u64::MAX - 255) / 256;

/// Position of one segment in the linear history; segment numbers start at 0
/// and strictly increase, one producer per history stream.
#[derive(Clone, Copy, PartialEq, Eq, Structural, Debug, Hash)]
pub struct SegmentIndex(pub u64);

impl SegmentIndex {
    /// All pieces of this segment can be given distinct `u64` piece numbers.
    pub open spec fn addressable(self) -> bool {
        self.0 <= MAX_SEGMENT_INDEX
    }

    pub fn is_addressable(&self) -> (r: bool)
        ensures
            r == self.addressable(),
    {
        self.0 <= MAX_SEGMENT_INDEX
    }
}

/// One segment of recovered history: the concatenation of its
/// [`RECORDS_PER_SEGMENT`] source records, in position order.
#[derive(Clone, Debug, PartialEq, Eq)]
pub struct Segment {
    /// The raw segment bytes, of [`SEGMENT_RAW_SIZE`] bytes.
    pub bytes: Vec<u8>,
}

/// Bytes offered as a segment do not have the fixed segment layout.
#[derive(Clone, Copy, Debug, PartialEq, Eq, Structural)]
pub struct SegmentLayoutError {
    /// Length of the rejected byte buffer.
    pub actual_len: usize,
}

impl Segment {
    /// The fixed layout: exactly one segment's raw bytes.
    pub open spec fn wf(self) -> bool {
        self.bytes@.len() == SEGMENT_RAW_SIZE
    }

    /// The raw bytes of the segment.
    pub open spec fn bytes_spec(self) -> Seq<u8> {
        self.bytes@
    }

    /// The record at `position`, as a slice of the raw bytes.
    pub open spec fn record_spec(self, position: int) -> Seq<u8> {
        self.bytes@.subrange(position * RECORD_SIZE, position * RECORD_SIZE + RECORD_SIZE)
    }

    /// Accepts exactly buffers of one segment's raw size.
    pub fn from_bytes(bytes: Vec<u8>) -> (r: Result<Segment, SegmentLayoutError>)
        ensures
            r is Ok <==> bytes@.len() == SEGMENT_RAW_SIZE,
            r matches Ok(s) ==> s.wf() && s.bytes_spec() == bytes@,
            r matches Err(e) ==> e.actual_len == bytes@.len(),
    {
        if bytes.len() == SEGMENT_RAW_SIZE {
            Ok(Segment { bytes })
        } else {
            Err(SegmentLayoutError { actual_len: bytes.len() })
        }
    }

    /// The raw bytes, by reference.
    pub fn as_bytes(&self) -> (r: &Vec<u8>)
        ensures
            r@ == self.bytes_spec(),
    {
        &self.bytes
    }

    /// The raw bytes, by value.
    pub fn into_bytes(self) -> (r: Vec<u8>)
        ensures
            r@ == self.bytes_spec(),
    {
        self.bytes
    }
}

} // verus!
