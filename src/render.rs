//! Filling pixels from a per-pixel shading function. A chunk of the frame
//! buffer that starts at flat index `start` gets, at its position `j`, the
//! value that the shader gives for index `start + j`; since the shader sees
//! only the flat index, the frame does not depend on how it was chunked.

use vstd::prelude::*;
use crate::partition::{chunk_start, chunk_end, lemma_chunk_monotone};

verus! {

/// Shades every pixel of `chunk`, which holds the flat indices from `start` on,
/// in ascending order.
pub fn render_chunk<F: Fn(usize) -> u32>(chunk: &mut [u32], start: usize, shade: &F)
    requires
        start + old(chunk)@.len() <= usize::MAX,
        forall|i: usize| start <= i < start + old(chunk)@.len() ==> shade.requires((i,)),
    ensures
        final(chunk)@.len() == old(chunk)@.len(),
        forall|j: int|
            0 <= j < old(chunk)@.len() ==> shade.ensures(
                ((start + j) as usize,),
                #[trigger] final(chunk)@[j],
            ),
{
    let n = chunk.len();
    let mut j: usize = 0;
    while j < n
        invariant
            n == old(chunk)@.len(),
            chunk@.len() == n,
            j <= n,
            start + n <= usize::MAX,
            forall|i: usize| start <= i < start + n ==> shade.requires((i,)),
            forall|k: int| 0 <= k < j ==> shade.ensures(((start + k) as usize,), #[trigger] chunk@[k]),
        decreases n - j,
    {
        let v = shade(start + j);
        chunk[j] = v;
        j = j + 1;
    }
}

/// Hands out the chunks of a partition of `buf` among `p` workers as
/// disjoint mutable slices, each with the flat index it starts at.
pub fn split_chunks<'a>(buf: &'a mut [u32], p: usize) -> (r: Vec<(usize, &'a mut [u32])>)
    requires
        p > 0,
    ensures
        r@.len() == p,
        forall|k: int|
            0 <= k < p ==> (#[trigger] r@[k]).0 as int == chunk_start(old(buf)@.len() as int, p as int, k)
                && r@[k].1@ == old(buf)@.subrange(
                chunk_start(old(buf)@.len() as int, p as int, k),
                chunk_end(old(buf)@.len() as int, p as int, k),
            ),
{
    let n = buf.len();
    let ghost whole = buf@;
    let mut r: Vec<(usize, &'a mut [u32])> = Vec::new();
    let mut rest: &'a mut [u32] = buf;
    let mut k: usize = 0;
    while k < p
        invariant
            p > 0,
            k <= p,
            n == whole.len(),
            r@.len() == k,
            k < p ==> rest@ == whole.subrange(chunk_start(n as int, p as int, k as int), n as int),
            forall|j: int|
                0 <= j < k ==> (#[trigger] r@[j]).0 as int == chunk_start(n as int, p as int, j)
                    && r@[j].1@ == whole.subrange(
                    chunk_start(n as int, p as int, j),
                    chunk_end(n as int, p as int, j),
                ),
        decreases p - k,
    {
        proof {
            lemma_chunk_monotone(n as int, p as int, k as int);
            if k + 1 < p {
                lemma_chunk_monotone(n as int, p as int, k as int + 1);
            }
        }
        let (start, end) = crate::partition::chunk_bounds(n, p, k);
        let (chunk, tail) = rest.split_at_mut(end - start);
        r.push((start, chunk));
        rest = tail;
        k = k + 1;
    }
    r
}

/// The pixels of chunk `k` when each flat index `i` is shaded `f(i)`.
pub open spec fn chunk_pixels(n: int, p: int, k: int, f: spec_fn(int) -> u32) -> Seq<u32> {
    Seq::new(
        (chunk_end(n, p, k) - chunk_start(n, p, k)) as nat,
        |j: int| f(chunk_start(n, p, k) + j),
    )
}

/// The pixels of chunks `0..k`, one after the other.
pub open spec fn chunks_joined(n: int, p: int, k: int, f: spec_fn(int) -> u32) -> Seq<u32>
    decreases k,
{
    if k <= 0 {
        Seq::empty()
    } else {
        chunks_joined(n, p, k - 1, f) + chunk_pixels(n, p, k - 1, f)
    }
}

proof fn lemma_chunks_joined_prefix(n: int, p: int, k: int, f: spec_fn(int) -> u32)
    requires
        n >= 0,
        p > 0,
        1 <= k <= p,
    ensures
        chunks_joined(n, p, k, f) == Seq::new(chunk_end(n, p, k - 1) as nat, |i: int| f(i)),
    decreases k,
{
    lemma_chunk_monotone(n, p, k - 1);
    assert(0 * (n / p) == 0);
    let s = chunk_start(n, p, k - 1);
    let front = chunks_joined(n, p, k - 1, f);
    let back = chunk_pixels(n, p, k - 1, f);
    if k > 1 {
        lemma_chunks_joined_prefix(n, p, k - 1, f);
        lemma_chunk_monotone(n, p, k - 2);
        assert(chunk_end(n, p, k - 2) == s);
    } else {
        assert(front =~= Seq::<u32>::empty());
    }
    assert(front.len() == s);
    let whole = Seq::new(chunk_end(n, p, k - 1) as nat, |i: int| f(i));
    assert(chunks_joined(n, p, k, f) == front + back);
    assert forall|i: int| 0 <= i < whole.len() implies (front + back)[i] == whole[i] by {
        if i >= s {
            assert(back[i - s] == f(s + (i - s)));
        }
    }
    assert(front + back =~= whole);
}

/// Shading the chunks of a partition one by one and joining them gives the
/// same frame as shading all `n` pixels in one pass, for every worker count
/// `p > 0`.
pub proof fn lemma_chunked_frame_is_serial(n: nat, p: nat, f: spec_fn(int) -> u32)
    requires
        p > 0,
    ensures
        chunks_joined(n as int, p as int, p as int, f) == Seq::new(n, |i: int| f(i)),
{
    lemma_chunks_joined_prefix(n as int, p as int, p as int, f);
}

} // verus!
