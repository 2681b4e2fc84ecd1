//! Object-location metadata: blocks carry byte offsets of embedded objects,
//! and building translates those into piece-relative coordinates.

use crate::pieces::PieceIndex;
use crate::segments::{PIECES_PER_SEGMENT, RECORD_SIZE, SEGMENT_RAW_SIZE, SegmentIndex};
use vstd::prelude::*;

verus! {

/// One object embedded in a block, located by its byte offset within the
/// block's bytes.  The object's own content is opaque payload.
#[derive(Clone, Copy, PartialEq, Eq, Structural, Debug)]
pub struct BlockObject {
    /// Offset of the object within the block.
    pub offset: usize,
}

/// Object-location metadata handed in beside one block.
#[derive(Clone, Debug, PartialEq, Eq)]
pub struct BlockObjectMapping {
    /// The objects of the block, in the order the caller lists them.
    pub objects: Vec<BlockObject>,
}

impl BlockObjectMapping {
    /// A mapping with no objects.
    pub fn empty() -> (r: BlockObjectMapping)
        ensures
            r.objects@.len() == 0,
    {
        BlockObjectMapping { objects: Vec::new() }
    }
}

/// One object located in the archived history: the piece holding its first
/// byte and the offset of that byte within the piece's record.
#[derive(Clone, Copy, PartialEq, Eq, Structural, Debug)]
pub struct GlobalObject {
    /// The source piece the object starts in.
    pub piece_index: PieceIndex,
    /// Offset of the object within that piece's record.
    pub offset: usize,
}

/// The offsets of a buffered offset list, as mathematical integers.
pub open spec fn offsets_of(offsets: Seq<usize>) -> Seq<int> {
    offsets.map_values(|o: usize| o as int)
}

/// Where an object at `segment_offset` bytes into the segment numbered
/// `segment_number` lands: the source piece covering that byte, and the
/// remainder offset within that piece's record.
pub open spec fn global_object_at(segment_number: int, segment_offset: int) -> GlobalObject {
    GlobalObject {
        piece_index: PieceIndex(
            (segment_number * PIECES_PER_SEGMENT + segment_offset / RECORD_SIZE as int) as u64,
        ),
        offset: (segment_offset % RECORD_SIZE as int) as usize,
    }
}

/// The objects among `offsets` (stream offsets, in order) that fall inside
/// segment ordinal `j`, translated to piece-relative coordinates of the
/// segment numbered `segment_number`.
pub open spec fn objects_in_segment(offsets: Seq<int>, j: int, segment_number: int) -> Seq<
    GlobalObject,
>
    decreases offsets.len(),
{
    if offsets.len() == 0 {
        Seq::empty()
    } else {
        objects_in_segment(offsets.drop_last(), j, segment_number) + (if j * SEGMENT_RAW_SIZE
            <= offsets.last() < j * SEGMENT_RAW_SIZE + SEGMENT_RAW_SIZE {
            seq![global_object_at(segment_number, offsets.last() - j * SEGMENT_RAW_SIZE)]
        } else {
            Seq::empty()
        })
    }
}

/// The offsets among `offsets` at or past `consumed`, shifted down by
/// `consumed`: what stays buffered after that many bytes were archived.
pub open spec fn leftover_offsets(offsets: Seq<int>, consumed: int) -> Seq<int>
    decreases offsets.len(),
{
    if offsets.len() == 0 {
        Seq::empty()
    } else {
        leftover_offsets(offsets.drop_last(), consumed) + (if offsets.last() >= consumed {
            seq![offsets.last() - consumed]
        } else {
            Seq::empty()
        })
    }
}

/// Translating a one-longer prefix appends at most the entry at its end.
pub proof fn lemma_objects_in_segment_take_step(offsets: Seq<int>, j: int, segment_number: int,
    i: int)
    requires
        0 <= i < offsets.len(),
    ensures
        j * SEGMENT_RAW_SIZE <= offsets[i] < j * SEGMENT_RAW_SIZE + SEGMENT_RAW_SIZE ==> objects_in_segment(
            offsets.take(i + 1),
            j,
            segment_number,
        ) == objects_in_segment(offsets.take(i), j, segment_number) + seq![global_object_at(
            segment_number,
            offsets[i] - j * SEGMENT_RAW_SIZE,
        )],
        !(j * SEGMENT_RAW_SIZE <= offsets[i] < j * SEGMENT_RAW_SIZE + SEGMENT_RAW_SIZE) ==> objects_in_segment(
            offsets.take(i + 1),
            j,
            segment_number,
        ) == objects_in_segment(offsets.take(i), j, segment_number),
{
    assert(offsets.take(i + 1).drop_last() =~= offsets.take(i));
    assert(offsets.take(i + 1).last() == offsets[i]);
    if !(j * SEGMENT_RAW_SIZE <= offsets[i] < j * SEGMENT_RAW_SIZE + SEGMENT_RAW_SIZE) {
        assert(objects_in_segment(offsets.take(i + 1), j, segment_number) =~= objects_in_segment(
            offsets.take(i),
            j,
            segment_number,
        ));
    }
}

/// Keeping a one-longer prefix appends at most the entry at its end.
pub proof fn lemma_leftover_offsets_take_step(offsets: Seq<int>, consumed: int, i: int)
    requires
        0 <= i < offsets.len(),
    ensures
        offsets[i] >= consumed ==> leftover_offsets(offsets.take(i + 1), consumed)
            == leftover_offsets(offsets.take(i), consumed) + seq![offsets[i] - consumed],
        offsets[i] < consumed ==> leftover_offsets(offsets.take(i + 1), consumed)
            == leftover_offsets(offsets.take(i), consumed),
{
    assert(offsets.take(i + 1).drop_last() =~= offsets.take(i));
    assert(offsets.take(i + 1).last() == offsets[i]);
    if offsets[i] < consumed {
        assert(leftover_offsets(offsets.take(i + 1), consumed) =~= leftover_offsets(
            offsets.take(i),
            consumed,
        ));
    }
}

/// Leftover offsets of a bounded offset list stay bounded by what remains.
pub proof fn lemma_leftover_offsets_bound(offsets: Seq<int>, consumed: int, limit: int)
    requires
        forall|i: int| 0 <= i < offsets.len() ==> 0 <= #[trigger] offsets[i] < limit,
    ensures
        forall|i: int|
            0 <= i < leftover_offsets(offsets, consumed).len() ==> 0 <= #[trigger] leftover_offsets(
                offsets,
                consumed,
            )[i] < limit - consumed,
    decreases offsets.len(),
{
    if offsets.len() > 0 {
        assert(offsets.last() == offsets[offsets.len() - 1]);
        assert(forall|i: int|
            0 <= i < offsets.drop_last().len() ==> 0 <= #[trigger] offsets.drop_last()[i] < limit);
        lemma_leftover_offsets_bound(offsets.drop_last(), consumed, limit);
        let rest = leftover_offsets(offsets.drop_last(), consumed);
        assert forall|i: int|
            0 <= i < leftover_offsets(offsets, consumed).len() implies 0
            <= #[trigger] leftover_offsets(offsets, consumed)[i] < limit - consumed by {
            if i < rest.len() {
                assert(leftover_offsets(offsets, consumed)[i] == rest[i]);
            } else {
                assert(offsets.last() >= consumed);
                assert(leftover_offsets(offsets, consumed)[i] == offsets.last() - consumed);
            }
        }
    }
}

/// Collects the objects of segment ordinal `j`, translated into coordinates
/// of the segment numbered `segment_number`.
pub(crate) fn collect_segment_objects(offsets: &Vec<usize>, j: usize, segment_number: SegmentIndex)
    -> (r: Vec<GlobalObject>)
    requires
        segment_number.addressable(),
        j * SEGMENT_RAW_SIZE + SEGMENT_RAW_SIZE <= usize::MAX,
    ensures
        r@ == objects_in_segment(offsets_of(offsets@), j as int, segment_number.0 as int),
{
    let base = j * SEGMENT_RAW_SIZE;
    let mut out: Vec<GlobalObject> = Vec::new();
    let ghost all = offsets_of(offsets@);
    let n = offsets.len();
    let mut i: usize = 0;
    while i < n
        invariant
            i <= n == offsets@.len(),
            all == offsets_of(offsets@),
            segment_number.addressable(),
            base == j * SEGMENT_RAW_SIZE,
            base + SEGMENT_RAW_SIZE <= usize::MAX,
            out@ == objects_in_segment(all.take(i as int), j as int, segment_number.0 as int),
        decreases n - i,
    {
        proof {
            lemma_objects_in_segment_take_step(all, j as int, segment_number.0 as int, i as int);
            assert(all[i as int] == offsets@[i as int] as int);
        }
        let o = offsets[i];
        if base <= o && o < base + SEGMENT_RAW_SIZE {
            let segment_offset = o - base;
            let position = segment_offset / RECORD_SIZE;
            proof {
                assert(segment_offset / RECORD_SIZE < PIECES_PER_SEGMENT) by (nonlinear_arith)
                    requires
                        0 <= segment_offset < SEGMENT_RAW_SIZE,
                ;
                crate::pieces::lemma_piece_address(segment_number.0 as int, position as int);
            }
            let piece_index = PieceIndex::new(segment_number, position);
            let object = GlobalObject { piece_index, offset: segment_offset % RECORD_SIZE };
            proof {
                assert(object == global_object_at(segment_number.0 as int, segment_offset as int));
            }
            out.push(object);
            proof {
                assert(out@ =~= objects_in_segment(
                    all.take(i as int),
                    j as int,
                    segment_number.0 as int,
                ) + seq![global_object_at(segment_number.0 as int, segment_offset as int)]);
            }
        }
        i = i + 1;
    }
    proof {
        assert(all.take(n as int) =~= all);
    }
    out
}

/// Keeps the offsets at or past `consumed`, shifted down by `consumed`.
pub(crate) fn keep_leftover_offsets(offsets: &Vec<usize>, consumed: usize) -> (r: Vec<usize>)
    ensures
        offsets_of(r@) == leftover_offsets(offsets_of(offsets@), consumed as int),
{
    let mut out: Vec<usize> = Vec::new();
    let ghost all = offsets_of(offsets@);
    let n = offsets.len();
    let mut i: usize = 0;
    while i < n
        invariant
            i <= n == offsets@.len(),
            all == offsets_of(offsets@),
            offsets_of(out@) == leftover_offsets(all.take(i as int), consumed as int),
        decreases n - i,
    {
        proof {
            lemma_leftover_offsets_take_step(all, consumed as int, i as int);
            assert(all[i as int] == offsets@[i as int] as int);
        }
        let o = offsets[i];
        if o >= consumed {
            out.push(o - consumed);
            proof {
                assert(offsets_of(out@) =~= leftover_offsets(all.take(i as int), consumed as int)
                    + seq![o as int - consumed as int]);
            }
        }
        i = i + 1;
    }
    proof {
        assert(all.take(n as int) =~= all);
    }
    out
}

} // verus!
