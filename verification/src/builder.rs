//! Building: ingest arbitrary-length block byte streams and emit complete
//! archived segments of erasure-coded, commitment-bearing pieces.

use crate::bytes::{copy_range, push_all};
use crate::commitments::{commit, commitment_spec, prove, witness_spec};
use crate::erasure::{codeword_of, parity_of, rs_extend, views_of};
use crate::objects::{BlockObjectMapping, GlobalObject, collect_segment_objects,
    keep_leftover_offsets, lemma_leftover_offsets_bound, leftover_offsets, objects_in_segment,
    offsets_of};
use crate::pieces::Piece;
use crate::segments::{MAX_SEGMENT_INDEX, PARITY_PIECES_PER_SEGMENT, PIECES_PER_SEGMENT,
    RECORDS_PER_SEGMENT, RECORD_SIZE, SEGMENT_RAW_SIZE, SegmentIndex};
use vstd::prelude::*;

verus! {

/// `n` zero bytes: the deterministic filler used on forced finalization.
pub open spec fn zeros(n: int) -> Seq<u8> {
    Seq::new(n as nat, |i: int| 0u8)
}

/// How many filler bytes ingestion appends: on forced finalization, what it
/// takes to reach the next segment boundary; otherwise nothing.
pub open spec fn padding_len(len: int, force_finalize: bool) -> int {
    if force_finalize {
        (SEGMENT_RAW_SIZE - len % (SEGMENT_RAW_SIZE as int)) % (SEGMENT_RAW_SIZE as int)
    } else {
        0
    }
}

/// All bytes in hand after ingesting a block: the carried bytes, the block's
/// bytes, and the filler.
pub open spec fn combined_bytes(buffer: Seq<u8>, block: Seq<u8>, force_finalize: bool) -> Seq<u8> {
    buffer + block + zeros(padding_len(buffer.len() + block.len() as int, force_finalize))
}

/// All buffered object offsets after ingesting a block's mapping: the carried
/// offsets, then the block's offsets shifted past the carried bytes.
pub open spec fn ingested_offsets(
    carried: Seq<usize>,
    buffer_len: int,
    mapping: BlockObjectMapping,
) -> Seq<int> {
    offsets_of(carried) + mapping.objects@.map_values(|b: crate::objects::BlockObject| buffer_len
        + b.offset)
}

/// Every object offset of the mapping lies inside the block.
pub open spec fn mapping_valid(mapping: BlockObjectMapping, block_len: int) -> bool {
    forall|i: int|
        0 <= i < mapping.objects@.len() ==> (#[trigger] mapping.objects@[i]).offset < block_len
}

/// The source records of segment ordinal `j` within `bytes`: that segment's
/// span, cut into record-sized slices.
pub open spec fn segment_records(bytes: Seq<u8>, j: int) -> Seq<Seq<u8>> {
    Seq::new(
        RECORDS_PER_SEGMENT as nat,
        |i: int|
            bytes.subrange(
                j * SEGMENT_RAW_SIZE + i * RECORD_SIZE,
                j * SEGMENT_RAW_SIZE + i * RECORD_SIZE + RECORD_SIZE,
            ),
    )
}

/// One built piece: the codeword record of its position, the commitment to
/// that record, and the witness binding record to position.
pub open spec fn piece_matches(piece: Piece, records: Seq<Seq<u8>>, position: int) -> bool {
    &&& piece.wf()
    &&& piece.record@ == codeword_of(records)[position]
    &&& piece.commitment@ == commitment_spec(piece.record@)
    &&& piece.witness@ == witness_spec(piece.record@, position)
}

/// One emitted segment: numbered in order, fully expanded into matching
/// pieces, and carrying exactly the objects that fall inside its span.
pub open spec fn archived_segment_matches(
    seg: ArchivedSegment,
    combined: Seq<u8>,
    j: int,
    first_segment_number: int,
    all_offsets: Seq<int>,
) -> bool {
    &&& seg.segment_index.0 == first_segment_number + j
    &&& seg.pieces@.len() == PIECES_PER_SEGMENT
    &&& forall|p: int|
        0 <= p < PIECES_PER_SEGMENT ==> piece_matches(
            #[trigger] seg.pieces@[p],
            segment_records(combined, j),
            p,
        )
    &&& seg.objects@ == objects_in_segment(all_offsets, j, first_segment_number + j)
}

/// How many complete segments one ingestion yields.
pub open spec fn new_segment_count(
    builder: SegmentBuilder,
    block: Seq<u8>,
    force_finalize: bool,
) -> int {
    combined_bytes(builder.buffer@, block, force_finalize).len() as int / (SEGMENT_RAW_SIZE as int)
}

/// The ingestion would need segment numbers past the addressable range.
pub open spec fn indexes_exhausted(
    builder: SegmentBuilder,
    block: Seq<u8>,
    force_finalize: bool,
) -> bool {
    builder.next_segment_index + new_segment_count(builder, block, force_finalize)
        > MAX_SEGMENT_INDEX + 1
}

/// The full effect of one successful ingestion on the builder and its output.
pub open spec fn builds(
    old_builder: SegmentBuilder,
    block: Seq<u8>,
    mapping: BlockObjectMapping,
    force_finalize: bool,
    segments: Seq<ArchivedSegment>,
    new_builder: SegmentBuilder,
) -> bool {
    let combined = combined_bytes(old_builder.buffer@, block, force_finalize);
    let all_offsets = ingested_offsets(
        old_builder.object_offsets@,
        old_builder.buffer@.len() as int,
        mapping,
    );
    let n = combined.len() as int / (SEGMENT_RAW_SIZE as int);
    &&& segments.len() == n
    &&& forall|j: int|
        0 <= j < n ==> archived_segment_matches(
            #[trigger] segments[j],
            combined,
            j,
            old_builder.next_segment_index as int,
            all_offsets,
        )
    &&& new_builder.buffer@ == combined.skip(n * SEGMENT_RAW_SIZE)
    &&& offsets_of(new_builder.object_offsets@) == leftover_offsets(
        all_offsets,
        n * SEGMENT_RAW_SIZE,
    )
    &&& new_builder.next_segment_index == old_builder.next_segment_index + n
}

/// A block's mapping refers to bytes the block does not have.
#[derive(Clone, Copy, Debug, PartialEq, Eq, Structural)]
pub enum BuilderError {
    /// An object offset of the mapping is at or past the block's length.
    InvalidObjectOffset {
        /// The offending offset.
        offset: usize,
        /// The block's length.
        block_len: usize,
    },
    /// The ingestion would need segment numbers past the addressable range.
    SegmentIndexExhausted,
}

/// One complete archived segment: its number, its full ordered piece
/// sequence, and the translated object locations that fall inside it.
#[derive(Clone, Debug)]
pub struct ArchivedSegment {
    /// The segment's number in the history stream.
    pub segment_index: SegmentIndex,
    /// All pieces of the segment, in position order.
    pub pieces: Vec<Piece>,
    /// The objects archived inside this segment, in piece coordinates.
    pub objects: Vec<GlobalObject>,
}

/// The forward transform: buffers incoming block bytes and, whenever at
/// least one segment's raw size is in hand, slices segments and expands them
/// into erasure-coded, commitment-bearing pieces.
///
/// One builder is exclusively owned by one logical archiving stream; its
/// segment numbers start at zero and strictly increase.
#[derive(Debug)]
pub struct SegmentBuilder {
    /// Bytes carried over until a full segment is in hand.
    pub buffer: Vec<u8>,
    /// Buffered object offsets, relative to the start of `buffer`.
    pub object_offsets: Vec<usize>,
    /// The number the next emitted segment receives.
    pub next_segment_index: u64,
}

impl SegmentBuilder {
    /// The builder's invariant: it never retains a complete segment, its
    /// buffered offsets point into the buffer, and its next segment number
    /// is at most one past the addressable range.
    pub open spec fn wf(self) -> bool {
        &&& self.buffer@.len() < SEGMENT_RAW_SIZE
        &&& forall|i: int|
            0 <= i < self.object_offsets@.len() ==> (#[trigger] self.object_offsets@[i])
                < self.buffer@.len()
        &&& self.next_segment_index <= MAX_SEGMENT_INDEX + 1
    }

    /// A fresh builder: nothing buffered, numbering from zero.
    pub fn new() -> (r: SegmentBuilder)
        ensures
            r.wf(),
            r.buffer@.len() == 0,
            r.object_offsets@.len() == 0,
            r.next_segment_index == 0,
    {
        SegmentBuilder { buffer: Vec::new(), object_offsets: Vec::new(), next_segment_index: 0 }
    }

    /// Ingests one block and its object mapping, and emits every segment
    /// that is now complete, in order.
    ///
    /// A trailing remainder stays buffered for the next call; only
    /// `force_finalize` pads the remainder with zero filler to complete a
    /// final segment.  A mapping offset outside the block, or running out of
    /// addressable segment numbers, is rejected without any effect.
    pub fn add_block(
        &mut self,
        block: &Vec<u8>,
        mapping: &BlockObjectMapping,
        force_finalize: bool,
    ) -> (r: Result<Vec<ArchivedSegment>, BuilderError>)
        requires
            old(self).wf(),
        ensures
            final(self).wf(),
            !mapping_valid(*mapping, block@.len() as int) ==> (r matches Err(e) && e matches
                BuilderError::InvalidObjectOffset { offset, block_len } && block_len == block@.len()
                && offset >= block@.len() && (exists|i: int|
                0 <= i < mapping.objects@.len() && (#[trigger] mapping.objects@[i]).offset
                    == offset) && *final(self) == *old(self)),
            mapping_valid(*mapping, block@.len() as int) && indexes_exhausted(
                *old(self),
                block@,
                force_finalize,
            ) ==> r == Err::<Vec<ArchivedSegment>, BuilderError>(BuilderError::SegmentIndexExhausted)
                && *final(self) == *old(self),
            mapping_valid(*mapping, block@.len() as int) && !indexes_exhausted(
                *old(self),
                block@,
                force_finalize,
            ) ==> (r matches Ok(segments) && builds(
                *old(self),
                block@,
                *mapping,
                force_finalize,
                segments@,
                *final(self),
            )),
    {
        let block_len = block.len();
        // Reject a mapping that points outside the block; nothing else is
        // touched before this is settled.
        let mut i: usize = 0;
        while i < mapping.objects.len()
            invariant
                i <= mapping.objects@.len(),
                block_len == block@.len(),
                *self == *old(self),
                old(self).wf(),
                forall|k: int|
                    0 <= k < i ==> (#[trigger] mapping.objects@[k]).offset < block_len,
            decreases mapping.objects@.len() - i,
        {
            if mapping.objects[i].offset >= block_len {
                return Err(BuilderError::InvalidObjectOffset {
                    offset: mapping.objects[i].offset,
                    block_len,
                });
            }
            i = i + 1;
        }
        assert(mapping_valid(*mapping, block@.len() as int));

        // Combine the carried bytes, the block, and any forced filler.
        let buffer_len = self.buffer.len();
        let mut combined = copy_range(&self.buffer, 0, buffer_len);
        proof {
            assert(combined@ =~= self.buffer@);
        }
        push_all(&mut combined, block);
        let ghost unpadded = old(self).buffer@ + block@;
        if force_finalize {
            let rem = combined.len() % SEGMENT_RAW_SIZE;
            let pad = if rem == 0 {
                0
            } else {
                SEGMENT_RAW_SIZE - rem
            };
            proof {
                assert(pad == padding_len(unpadded.len() as int, true)) by {
                    if rem == 0 {
                        assert((SEGMENT_RAW_SIZE as int - 0) % (SEGMENT_RAW_SIZE as int)
                            == 0) by (nonlinear_arith)
                            requires
                                SEGMENT_RAW_SIZE > 0,
                        ;
                    } else {
                        assert((SEGMENT_RAW_SIZE - rem) % (SEGMENT_RAW_SIZE as int)
                            == SEGMENT_RAW_SIZE - rem) by (nonlinear_arith)
                            requires
                                0 < SEGMENT_RAW_SIZE - rem < SEGMENT_RAW_SIZE,
                        ;
                    }
                };
            }
            let mut k: usize = 0;
            while k < pad
                invariant
                    k <= pad,
                    combined@ == unpadded + zeros(k as int),
                decreases pad - k,
            {
                combined.push(0u8);
                proof {
                    assert(combined@ =~= unpadded + zeros(k as int + 1));
                }
                k = k + 1;
            }
        }
        proof {
            assert(combined@ =~= combined_bytes(old(self).buffer@, block@, force_finalize));
        }

        // Gather all buffered object offsets, the block's shifted past the
        // carried bytes.
        let ghost all_offsets_spec = ingested_offsets(
            old(self).object_offsets@,
            old(self).buffer@.len() as int,
            *mapping,
        );
        let carried_count = self.object_offsets.len();
        let mut all_offsets: Vec<usize> = Vec::new();
        let mut i: usize = 0;
        while i < carried_count
            invariant
                i <= carried_count == self.object_offsets@.len(),
                *self == *old(self),
                all_offsets@ == self.object_offsets@.take(i as int),
            decreases carried_count - i,
        {
            all_offsets.push(self.object_offsets[i]);
            proof {
                assert(all_offsets@ =~= self.object_offsets@.take(i as int + 1));
            }
            i = i + 1;
        }
        proof {
            assert(self.object_offsets@.take(carried_count as int) =~= self.object_offsets@);
            assert(offsets_of(all_offsets@) =~= all_offsets_spec.take(carried_count as int));
        }
        let combined_len = combined.len();
        proof {
            assert(unpadded.len() <= combined@.len());
        }
        let mut i: usize = 0;
        while i < mapping.objects.len()
            invariant
                i <= mapping.objects@.len(),
                *self == *old(self),
                block_len == block@.len(),
                buffer_len == self.buffer@.len(),
                buffer_len + block_len <= usize::MAX,
                mapping_valid(*mapping, block@.len() as int),
                all_offsets_spec == ingested_offsets(
                    old(self).object_offsets@,
                    old(self).buffer@.len() as int,
                    *mapping,
                ),
                all_offsets@.len() == self.object_offsets@.len() + i,
                offsets_of(all_offsets@) == all_offsets_spec.take(
                    self.object_offsets@.len() + i as int,
                ),
            decreases mapping.objects@.len() - i,
        {
            all_offsets.push(buffer_len + mapping.objects[i].offset);
            proof {
                let m = self.object_offsets@.len() as int + i as int;
                assert(all_offsets_spec[m] == buffer_len + mapping.objects@[i as int].offset);
                assert(offsets_of(all_offsets@) =~= all_offsets_spec.take(m + 1));
            }
            i = i + 1;
        }
        proof {
            assert(all_offsets_spec.take(all_offsets_spec.len() as int) =~= all_offsets_spec);
            assert(offsets_of(all_offsets@) == all_offsets_spec);
        }

        // Every complete segment in hand is sliced and expanded.
        let n = combined.len() / SEGMENT_RAW_SIZE;
        proof {
            vstd::arithmetic::div_mod::lemma_fundamental_div_mod(
                combined@.len() as int,
                SEGMENT_RAW_SIZE as int,
            );
            assert(0 <= combined@.len() as int % (SEGMENT_RAW_SIZE as int)
                < SEGMENT_RAW_SIZE) by (nonlinear_arith)
                requires
                    SEGMENT_RAW_SIZE > 0,
                    combined@.len() >= 0,
            ;
            assert(n * SEGMENT_RAW_SIZE <= combined@.len());
            assert(combined@.len() - n * SEGMENT_RAW_SIZE < SEGMENT_RAW_SIZE);
        }
        if (n as u64) > MAX_SEGMENT_INDEX + 1 - self.next_segment_index {
            return Err(BuilderError::SegmentIndexExhausted);
        }
        let first_segment_number = self.next_segment_index;
        let mut segments: Vec<ArchivedSegment> = Vec::new();
        let mut j: usize = 0;
        while j < n
            invariant
                j <= n,
                *self == *old(self),
                old(self).wf(),
                first_segment_number == self.next_segment_index,
                n == combined@.len() as int / (SEGMENT_RAW_SIZE as int),
                combined_len == combined@.len(),
                n * SEGMENT_RAW_SIZE <= combined@.len(),
                first_segment_number + n <= MAX_SEGMENT_INDEX + 1,
                offsets_of(all_offsets@) == all_offsets_spec,
                segments@.len() == j,
                forall|jj: int|
                    0 <= jj < j ==> archived_segment_matches(
                        #[trigger] segments@[jj],
                        combined@,
                        jj,
                        first_segment_number as int,
                        all_offsets_spec,
                    ),
            decreases n - j,
        {
            proof {
                assert((j + 1) * SEGMENT_RAW_SIZE <= n * SEGMENT_RAW_SIZE
                    && (j + 1) * SEGMENT_RAW_SIZE == j * SEGMENT_RAW_SIZE
                    + SEGMENT_RAW_SIZE) by (nonlinear_arith)
                    requires
                        j < n,
                        SEGMENT_RAW_SIZE > 0,
                ;
            }
            let records = Self::build_records(&combined, j);
            let pieces = Self::build_pieces(&records);
            let segment_number = SegmentIndex(self.next_segment_index + j as u64);
            let objects = collect_segment_objects(&all_offsets, j, segment_number);
            let segment = ArchivedSegment { segment_index: segment_number, pieces, objects };
            proof {
                assert(views_of(records@) == segment_records(combined@, j as int));
                assert(archived_segment_matches(
                    segment,
                    combined@,
                    j as int,
                    first_segment_number as int,
                    all_offsets_spec,
                ));
            }
            segments.push(segment);
            j = j + 1;
        }

        // Keep the remainder and the offsets that still point into it.
        let consumed = n * SEGMENT_RAW_SIZE;
        let remainder_len = combined.len() - consumed;
        let new_buffer = copy_range(&combined, consumed, remainder_len);
        let new_offsets = keep_leftover_offsets(&all_offsets, consumed);
        proof {
            assert forall|k: int| 0 <= k < all_offsets_spec.len() implies 0
                <= #[trigger] all_offsets_spec[k] < unpadded.len() by {
                if k < old(self).object_offsets@.len() {
                    assert(all_offsets_spec[k] == old(self).object_offsets@[k] as int);
                    assert(old(self).object_offsets@[k] < old(self).buffer@.len());
                } else {
                    let m = k - old(self).object_offsets@.len();
                    assert(all_offsets_spec[k] == old(self).buffer@.len()
                        + mapping.objects@[m].offset);
                    assert(mapping.objects@[m].offset < block@.len());
                }
            }
            lemma_leftover_offsets_bound(
                all_offsets_spec,
                consumed as int,
                unpadded.len() as int,
            );
        }
        self.buffer = new_buffer;
        self.object_offsets = new_offsets;
        self.next_segment_index = self.next_segment_index + n as u64;
        proof {
            assert(self.buffer@ =~= combined@.skip(n * SEGMENT_RAW_SIZE));
            assert forall|k: int| 0 <= k < self.object_offsets@.len() implies (
            #[trigger] self.object_offsets@[k]) < self.buffer@.len() by {
                assert(offsets_of(self.object_offsets@)[k] == self.object_offsets@[k] as int);
                assert(0 <= leftover_offsets(all_offsets_spec, consumed as int)[k]
                    < unpadded.len() - consumed);
            }
        }
        Ok(segments)
    }

    /// Slices the records of segment ordinal `j` out of the combined bytes.
    fn build_records(combined: &Vec<u8>, j: usize) -> (r: Vec<Vec<u8>>)
        requires
            j * SEGMENT_RAW_SIZE + SEGMENT_RAW_SIZE <= combined@.len(),
        ensures
            r@.len() == RECORDS_PER_SEGMENT,
            forall|i: int| 0 <= i < r@.len() ==> (#[trigger] r@[i])@.len() == RECORD_SIZE,
            views_of(r@) == segment_records(combined@, j as int),
    {
        let total = combined.len();
        let base = j * SEGMENT_RAW_SIZE;
        let mut records: Vec<Vec<u8>> = Vec::new();
        let mut offset: usize = base;
        let mut i: usize = 0;
        while i < RECORDS_PER_SEGMENT
            invariant
                i <= RECORDS_PER_SEGMENT,
                base == j * SEGMENT_RAW_SIZE,
                base + SEGMENT_RAW_SIZE <= total == combined@.len(),
                offset == base + i * RECORD_SIZE,
                i * RECORD_SIZE <= SEGMENT_RAW_SIZE,
                records@.len() == i,
                forall|k: int|
                    0 <= k < i ==> (#[trigger] records@[k])@ == segment_records(
                        combined@,
                        j as int,
                    )[k],
                forall|k: int| 0 <= k < i ==> (#[trigger] records@[k])@.len() == RECORD_SIZE,
            decreases RECORDS_PER_SEGMENT - i,
        {
            proof {
                assert((i + 1) * RECORD_SIZE == i * RECORD_SIZE + RECORD_SIZE) by (nonlinear_arith);
                assert((i + 1) * RECORD_SIZE <= SEGMENT_RAW_SIZE) by (nonlinear_arith)
                    requires
                        i + 1 <= RECORDS_PER_SEGMENT,
                        RECORD_SIZE * RECORDS_PER_SEGMENT == SEGMENT_RAW_SIZE,
                        RECORD_SIZE >= 0,
                    ;
            }
            let record = copy_range(combined, offset, RECORD_SIZE);
            records.push(record);
            proof {
                assert(records@[i as int]@ == segment_records(combined@, j as int)[i as int]);
            }
            offset = offset + RECORD_SIZE;
            i = i + 1;
        }
        proof {
            assert(views_of(records@) =~= segment_records(combined@, j as int));
        }
        records
    }

    /// Expands one segment's records into its full ordered piece sequence:
    /// the erasure-coding collaborator supplies the parity records, the
    /// cryptographic collaborator a commitment and witness per piece.
    fn build_pieces(records: &Vec<Vec<u8>>) -> (r: Vec<Piece>)
        requires
            records@.len() == RECORDS_PER_SEGMENT,
            forall|i: int| 0 <= i < records@.len() ==> (#[trigger] records@[i])@.len()
                == RECORD_SIZE,
        ensures
            r@.len() == PIECES_PER_SEGMENT,
            forall|p: int|
                0 <= p < PIECES_PER_SEGMENT ==> piece_matches(
                    #[trigger] r@[p],
                    views_of(records@),
                    p,
                ),
    {
        let parity = rs_extend(PARITY_PIECES_PER_SEGMENT, records);
        let mut pieces: Vec<Piece> = Vec::new();
        let mut p: usize = 0;
        while p < PIECES_PER_SEGMENT
            invariant
                p <= PIECES_PER_SEGMENT,
                records@.len() == RECORDS_PER_SEGMENT,
                forall|i: int| 0 <= i < records@.len() ==> (#[trigger] records@[i])@.len()
                    == RECORD_SIZE,
                parity@.len() == PARITY_PIECES_PER_SEGMENT,
                forall|i: int| 0 <= i < parity@.len() ==> (#[trigger] parity@[i])@.len()
                    == RECORD_SIZE,
                views_of(parity@) == parity_of(views_of(records@)),
                pieces@.len() == p,
                forall|q: int|
                    0 <= q < p ==> piece_matches(#[trigger] pieces@[q], views_of(records@), q),
            decreases PIECES_PER_SEGMENT - p,
        {
            let record = if p < RECORDS_PER_SEGMENT {
                copy_range(&records[p], 0, RECORD_SIZE)
            } else {
                copy_range(&parity[p - RECORDS_PER_SEGMENT], 0, RECORD_SIZE)
            };
            proof {
                if p < RECORDS_PER_SEGMENT {
                    assert(record@ =~= records@[p as int]@);
                    assert(codeword_of(views_of(records@))[p as int] == views_of(records@)[
                    p as int]);
                } else {
                    assert(record@ =~= parity@[p - RECORDS_PER_SEGMENT]@);
                    assert(codeword_of(views_of(records@))[p as int] == parity_of(
                        views_of(records@),
                    )[p - RECORDS_PER_SEGMENT]);
                    assert(parity_of(views_of(records@))[p - RECORDS_PER_SEGMENT] == views_of(
                        parity@,
                    )[p - RECORDS_PER_SEGMENT]);
                }
            }
            let commitment = commit(&record);
            let witness = prove(&record, p);
            let piece = Piece { record, commitment, witness };
            proof {
                assert(piece_matches(piece, views_of(records@), p as int));
            }
            pieces.push(piece);
            p = p + 1;
        }
        pieces
    }
}

} // verus!
