//! Splitting a flat buffer of `n` pixels into `p` contiguous chunks, one per
//! worker. Every chunk but the last holds `n / p` pixels; the last one also
//! takes the remainder `n % p`.

use vstd::prelude::*;
use vstd::arithmetic::div_mod::lemma_fundamental_div_mod_converse;

verus! {

/// The number of pixels in each chunk but the last.
pub open spec fn chunk_len(n: int, p: int) -> int {
    n / p
}

/// The first index of chunk `k`.
pub open spec fn chunk_start(n: int, p: int, k: int) -> int {
    k * chunk_len(n, p)
}

/// One past the last index of chunk `k`.
pub open spec fn chunk_end(n: int, p: int, k: int) -> int {
    if k == p - 1 {
        n
    } else {
        (k + 1) * chunk_len(n, p)
    }
}

/// Whether index `i` lies in chunk `k`.
pub open spec fn in_chunk(n: int, p: int, k: int, i: int) -> bool {
    0 <= k < p && chunk_start(n, p, k) <= i < chunk_end(n, p, k)
}

/// The chunk that holds index `i`.
pub open spec fn chunk_index_of(n: int, p: int, i: int) -> int {
    if chunk_len(n, p) == 0 {
        p - 1
    } else if i / chunk_len(n, p) < p - 1 {
        i / chunk_len(n, p)
    } else {
        p - 1
    }
}

proof fn lemma_chunk_len_bounds(n: int, p: int)
    requires
        n >= 0,
        p > 0,
    ensures
        0 <= chunk_len(n, p),
        p * chunk_len(n, p) <= n,
        n - p * chunk_len(n, p) == n % p,
        n % p < p,
{
    let q = n / p;
    let r = n % p;
    vstd::arithmetic::div_mod::lemma_fundamental_div_mod(n, p);
    vstd::arithmetic::div_mod::lemma_mod_bound(n, p);
    assert(q >= 0) by (nonlinear_arith)
        requires
            n == p * q + r,
            0 <= r < p,
            n >= 0,
    ;
}

/// Starts grow with `k`, and chunk `k` ends no later than `n`.
pub(crate) proof fn lemma_chunk_monotone(n: int, p: int, k: int)
    requires
        n >= 0,
        p > 0,
        0 <= k < p,
    ensures
        0 <= chunk_start(n, p, k) <= chunk_end(n, p, k) <= n,
        k < p - 1 ==> chunk_end(n, p, k) - chunk_start(n, p, k) == chunk_len(n, p),
{
    lemma_chunk_len_bounds(n, p);
    let q = chunk_len(n, p);
    assert(0 <= k * q <= (k + 1) * q <= p * q) by (nonlinear_arith)
        requires
            0 <= k < p,
            q >= 0,
    ;
    assert((k + 1) * q - k * q == q) by (nonlinear_arith);
}

/// The bounds `(start, end)` of chunk `k` when `n` pixels go to `p` workers.
pub fn chunk_bounds(n: usize, p: usize, k: usize) -> (r: (usize, usize))
    requires
        p > 0,
        k < p,
    ensures
        r.0 as int == chunk_start(n as int, p as int, k as int),
        r.1 as int == chunk_end(n as int, p as int, k as int),
{
    proof {
        lemma_chunk_monotone(n as int, p as int, k as int);
    }
    let q = n / p;
    let start = k * q;
    let end = if k == p - 1 {
        n
    } else {
        (k + 1) * q
    };
    (start, end)
}

/// The bounds of all `p` chunks, in order.
pub fn partition(n: usize, p: usize) -> (r: Vec<(usize, usize)>)
    requires
        p > 0,
    ensures
        r@.len() == p,
        forall|k: int|
            0 <= k < p ==> (#[trigger] r@[k]).0 as int == chunk_start(n as int, p as int, k)
                && r@[k].1 as int == chunk_end(n as int, p as int, k),
{
    let mut r: Vec<(usize, usize)> = Vec::new();
    let mut k: usize = 0;
    while k < p
        invariant
            p > 0,
            k <= p,
            r@.len() == k,
            forall|j: int|
                0 <= j < k ==> (#[trigger] r@[j]).0 as int == chunk_start(n as int, p as int, j)
                    && r@[j].1 as int == chunk_end(n as int, p as int, j),
        decreases p - k,
    {
        let b = chunk_bounds(n, p, k);
        r.push(b);
        k = k + 1;
    }
    r
}

/// Index `i` lies in chunk `chunk_index_of(n, p, i)` and in no other, and no
/// chunk holds an index at or past `n`.
proof fn lemma_index_owner(n: int, p: int, i: int)
    requires
        n >= 0,
        p > 0,
        0 <= i,
    ensures
        i < n ==> in_chunk(n, p, chunk_index_of(n, p, i), i),
        forall|k: int| #[trigger] in_chunk(n, p, k, i) ==> k == chunk_index_of(n, p, i) && i < n,
{
    lemma_chunk_len_bounds(n, p);
    let q = chunk_len(n, p);
    let c = chunk_index_of(n, p, i);
    if q > 0 {
        vstd::arithmetic::div_mod::lemma_fundamental_div_mod(i, q);
        vstd::arithmetic::div_mod::lemma_mod_bound(i, q);
        let d = i / q;
        assert(d >= 0) by (nonlinear_arith)
            requires
                i == q * d + i % q,
                0 <= i % q < q,
                i >= 0,
        ;
        assert(q * d <= i < q * d + q);
        if i < n {
            lemma_chunk_monotone(n, p, c);
            if d < p - 1 {
                assert(c == d);
                assert(d * q <= i < (d + 1) * q) by (nonlinear_arith)
                    requires
                        q * d <= i < q * d + q,
            ;
            } else {
                assert(c == p - 1);
                assert((p - 1) * q <= q * d) by (nonlinear_arith)
                    requires
                        p - 1 <= d,
                        q > 0,
                ;
            }
        }
        assert forall|k: int| #[trigger] in_chunk(n, p, k, i) implies k == c && i < n by {
            lemma_chunk_monotone(n, p, k);
            if k < p - 1 {
                assert(k * q <= i < (k + 1) * q);
                lemma_fundamental_div_mod_converse(i, q, k, i - k * q);
                assert(k == d);
            } else {
                assert((p - 1) * q <= i);
                if d < p - 1 {
                    assert(q * d + q <= (p - 1) * q) by (nonlinear_arith)
                        requires
                            d + 1 <= p - 1,
                            q > 0,
                    ;
                }
            }
        }
    } else {
        assert forall|k: int| #[trigger] in_chunk(n, p, k, i) implies k == c && i < n by {
            lemma_chunk_monotone(n, p, k);
        }
    }
}

/// The chunks tile `[0, n)` exactly: the first starts at 0, the last ends at
/// `n`, each chunk ends where the next one starts, every chunk but the last
/// holds `n / p` indices and the last holds `n / p + n % p`; each index below
/// `n` lies in exactly one chunk and no chunk holds an index at or past `n`.
pub proof fn lemma_partition_tiles(n: nat, p: nat)
    requires
        p > 0,
    ensures
        chunk_start(n as int, p as int, 0) == 0,
        chunk_end(n as int, p as int, p - 1) == n,
        forall|k: int|
            0 <= k < p - 1 ==> #[trigger] chunk_end(n as int, p as int, k) == chunk_start(
                n as int,
                p as int,
                k + 1,
            ),
        forall|k: int|
            0 <= k < p - 1 ==> #[trigger] chunk_end(n as int, p as int, k) - chunk_start(
                n as int,
                p as int,
                k,
            ) == n / p,
        chunk_end(n as int, p as int, p - 1) - chunk_start(n as int, p as int, p - 1) == n / p + n
            % p,
        forall|i: int|
            0 <= i < n ==> #[trigger] in_chunk(n as int, p as int, chunk_index_of(n as int, p as int, i), i),
        forall|i: int, k: int|
            0 <= i && #[trigger] in_chunk(n as int, p as int, k, i) ==> k == chunk_index_of(
                n as int,
                p as int,
                i,
            ) && i < n,
{
    let (ni, pi) = (n as int, p as int);
    lemma_chunk_len_bounds(ni, pi);
    assert(0 * chunk_len(ni, pi) == 0);
    assert forall|k: int| 0 <= k < p - 1 implies #[trigger] chunk_end(ni, pi, k) == chunk_start(ni, pi, k + 1) by {}
    assert forall|k: int| 0 <= k < p - 1 implies #[trigger] chunk_end(ni, pi, k) - chunk_start(ni, pi, k) == n / p by {
        lemma_chunk_monotone(ni, pi, k);
    }
    assert(ni - (pi - 1) * chunk_len(ni, pi) == ni / pi + ni % pi) by (nonlinear_arith)
        requires
            ni - pi * chunk_len(ni, pi) == ni % pi,
            chunk_len(ni, pi) == ni / pi,
    ;
    assert forall|i: int| 0 <= i < n implies #[trigger] in_chunk(ni, pi, chunk_index_of(ni, pi, i), i) by {
        lemma_index_owner(ni, pi, i);
    }
    assert forall|i: int, k: int| 0 <= i && #[trigger] in_chunk(ni, pi, k, i) implies k == chunk_index_of(ni, pi, i) && i < n by {
        lemma_index_owner(ni, pi, i);
    }
}

} // verus!
