//! Small verified helpers for moving bytes between buffers.

use vstd::prelude::*;

verus! {

/// The concatenation of a list of byte strings, in order.
pub open spec fn concat_all(s: Seq<Seq<u8>>) -> Seq<u8>
    decreases s.len(),
{
    if s.len() == 0 {
        Seq::empty()
    } else {
        concat_all(s.drop_last()) + s.last()
    }
}

/// Concatenating a one-longer prefix appends the entry at its end.
pub proof fn lemma_concat_all_take_step(s: Seq<Seq<u8>>, i: int)
    requires
        0 <= i < s.len(),
    ensures
        concat_all(s.take(i + 1)) == concat_all(s.take(i)) + s[i],
{
    assert(s.take(i + 1).drop_last() =~= s.take(i));
    assert(s.take(i + 1).last() == s[i]);
}

/// The concatenation of `n` strings of `size` bytes each has `n * size` bytes.
pub proof fn lemma_concat_all_len(s: Seq<Seq<u8>>, size: int)
    requires
        forall|i: int| 0 <= i < s.len() ==> (#[trigger] s[i]).len() == size,
        size >= 0,
    ensures
        concat_all(s).len() == s.len() * size,
    decreases s.len(),
{
    if s.len() > 0 {
        assert(s.last() == s[s.len() - 1]);
        assert(forall|i: int|
            0 <= i < s.drop_last().len() ==> (#[trigger] s.drop_last()[i]).len() == size);
        lemma_concat_all_len(s.drop_last(), size);
        assert(concat_all(s).len() == (s.len() - 1) * size + size);
        assert((s.len() - 1) * size + size == s.len() * size) by (nonlinear_arith);
    }
}

/// `count` adjacent slices of `size` bytes each, cut out of `bytes` starting
/// at `start`.
pub open spec fn slices_of(bytes: Seq<u8>, start: int, count: int, size: int) -> Seq<Seq<u8>> {
    Seq::new(count as nat, |i: int| bytes.subrange(start + i * size, start + i * size + size))
}

/// Cutting a span into adjacent fixed-size slices and concatenating them
/// gives the span back.
pub proof fn lemma_concat_all_slices(bytes: Seq<u8>, start: int, count: int, size: int)
    requires
        0 <= start,
        0 <= size,
        0 <= count,
        start + count * size <= bytes.len(),
    ensures
        concat_all(slices_of(bytes, start, count, size)) == bytes.subrange(
            start,
            start + count * size,
        ),
    decreases count,
{
    let s = slices_of(bytes, start, count, size);
    if count == 0 {
        assert(count * size == 0) by (nonlinear_arith)
            requires
                count == 0,
        ;
        assert(concat_all(s) =~= bytes.subrange(start, start));
    } else {
        assert((count - 1) * size + size == count * size) by (nonlinear_arith);
        assert(0 <= (count - 1) * size <= count * size) by (nonlinear_arith)
            requires
                0 <= count - 1,
                0 <= size,
        ;
        lemma_concat_all_slices(bytes, start, count - 1, size);
        let t = slices_of(bytes, start, count - 1, size);
        assert(s.drop_last() =~= t);
        assert(s.last() == bytes.subrange(
            start + (count - 1) * size,
            start + (count - 1) * size + size,
        ));
        assert(concat_all(s) == concat_all(t) + s.last());
        assert(bytes.subrange(start, start + (count - 1) * size) + bytes.subrange(
            start + (count - 1) * size,
            start + (count - 1) * size + size,
        ) =~= bytes.subrange(start, start + count * size));
    }
    assert(concat_all(s) == bytes.subrange(start, start + count * size));
}

/// Copies `len` bytes of `src` starting at `start` into a fresh buffer.
pub fn copy_range(src: &Vec<u8>, start: usize, len: usize) -> (r: Vec<u8>)
    requires
        start + len <= src@.len(),
    ensures
        r@ == src@.subrange(start as int, start as int + len as int),
{
    let src_len = src.len();
    let mut out: Vec<u8> = Vec::new();
    let mut i: usize = 0;
    while i < len
        invariant
            i <= len,
            start + len <= src_len == src@.len(),
            out@ == src@.subrange(start as int, start as int + i as int),
        decreases len - i,
    {
        out.push(src[start + i]);
        i = i + 1;
        proof {
            assert(out@ =~= src@.subrange(start as int, start as int + i as int));
        }
    }
    out
}

/// Appends all of `src` to `dst`.
pub fn push_all(dst: &mut Vec<u8>, src: &Vec<u8>)
    ensures
        final(dst)@ == old(dst)@ + src@,
{
    let mut i: usize = 0;
    while i < src.len()
        invariant
            i <= src@.len(),
            dst@ == old(dst)@ + src@.subrange(0, i as int),
        decreases src@.len() - i,
    {
        dst.push(src[i]);
        i = i + 1;
        proof {
            assert(dst@ =~= old(dst)@ + src@.subrange(0, i as int));
        }
    }
    proof {
        assert(dst@ =~= old(dst)@ + src@);
    }
}

/// Compares two byte buffers for equality of contents.
pub fn bytes_equal(a: &Vec<u8>, b: &Vec<u8>) -> (r: bool)
    ensures
        r == (a@ == b@),
{
    if a.len() != b.len() {
        return false;
    }
    let mut i: usize = 0;
    while i < a.len()
        invariant
            i <= a@.len(),
            a@.len() == b@.len(),
            forall|j: int| 0 <= j < i ==> a@[j] == b@[j],
        decreases a@.len() - i,
    {
        if a[i] != b[i] {
            return false;
        }
        i = i + 1;
    }
    proof {
        assert(a@ =~= b@);
    }
    true
}

} // verus!
