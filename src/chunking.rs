//! Splitting an index range into contiguous chunks, and putting chunk results back
//! together in order.

use vstd::prelude::*;

use crate::grid::views_of;

verus! {

/// `n / d` rounded up.
pub open spec fn ceil_div(n: nat, d: nat) -> nat
    recommends
        d > 0,
{
    n / d + if n % d == 0 {
        0nat
    } else {
        1nat
    }
}

/// The contiguous chunks `[start, start + size)`, `[start + size, start + 2 * size)`, ...
/// that cover `start..n`, the last one cut at `n`.
pub open spec fn chunks_from(start: nat, n: nat, size: nat) -> Seq<(int, int)>
    decreases n - start,
    when size > 0
{
    if start >= n {
        Seq::empty()
    } else {
        let end = vstd::math::min((start + size) as int, n as int);
        seq![(start as int, end)] + chunks_from(end as nat, n, size)
    }
}

/// The chunks that `workers` workers get for the range `0..n`: each chunk holds
/// `ceil(n / workers)` indices, the last one possibly fewer.
pub open spec fn chunk_plan(n: nat, workers: nat) -> Seq<(int, int)> {
    if n == 0 || workers == 0 {
        Seq::empty()
    } else {
        chunks_from(0, n, ceil_div(n, workers))
    }
}

/// Index pairs as integers.
pub open spec fn as_int_pairs(v: Seq<(usize, usize)>) -> Seq<(int, int)> {
    v.map_values(|b: (usize, usize)| (b.0 as int, b.1 as int))
}

/// The pieces of `s` that the chunks cut out, in chunk order.
pub open spec fn pieces<T>(s: Seq<T>, chunks: Seq<(int, int)>) -> Seq<Seq<T>> {
    chunks.map_values(|b: (int, int)| s.subrange(b.0, b.1))
}

/// Chunk `k` of the chunks from `start` begins at `start + k * size` and ends `size`
/// later or at `n`, whichever comes first; there are `ceil((n - start) / size)` chunks.
pub proof fn lemma_chunk_positions(start: nat, n: nat, size: nat)
    requires
        size > 0,
    ensures
        start < n ==> chunks_from(start, n, size).len() == ceil_div((n - start) as nat, size),
        forall|k: int|
            0 <= k < chunks_from(start, n, size).len() ==> (#[trigger] chunks_from(start, n, size)[k])
                == (start + k * size, vstd::math::min(start + k * size + size, n as int)),
    decreases n - start,
{
    if start < n {
        let end = vstd::math::min((start + size) as int, n as int) as nat;
        let rest = chunks_from(end, n, size);
        let all = chunks_from(start, n, size);
        if start + size <= n {
            lemma_chunk_positions(start + size, n, size);
        } else {
            assert(rest.len() == 0);
        }
        assert(all == seq![(start as int, vstd::math::min((start + size) as int, n as int))] + rest);
        assert forall|k: int| 0 <= k < all.len() implies (#[trigger] all[k]) == (
            start + k * size,
            vstd::math::min(start + k * size + size, n as int),
        ) by {
            if k > 0 {
                assert(all[k] == rest[k - 1]);
                assert(end == start + size);
                assert(rest[k - 1] == (end + (k - 1) * size, vstd::math::min(
                    end + (k - 1) * size + size,
                    n as int,
                )));
                assert((start + size) + (k - 1) * size == start + k * size) by (nonlinear_arith);
            } else {
                assert(start + 0 * size == start);
            }
        }
        let m = (n - start) as nat;
        if start + size < n {
            assert(ceil_div(m, size) == ceil_div((m - size) as nat, size) + 1) by {
                vstd::arithmetic::div_mod::lemma_mod_sub_multiples_vanish(m as int, size as int);
                vstd::arithmetic::div_mod::lemma_div_minus_one(m as int, size as int);
            }
        } else {
            assert(rest.len() == 0);
            assert(ceil_div(m, size) == 1) by {
                if m == size {
                    vstd::arithmetic::div_mod::lemma_fundamental_div_mod_converse(
                        m as int,
                        size as int,
                        1,
                        0,
                    );
                } else {
                    vstd::arithmetic::div_mod::lemma_fundamental_div_mod_converse(
                        m as int,
                        size as int,
                        0,
                        m as int,
                    );
                }
            }
        }
    }
}

/// Putting the pieces cut by the chunks from `start` back together gives `s` from
/// `start` on.
pub proof fn lemma_pieces_reassemble<T>(s: Seq<T>, start: nat, size: nat)
    requires
        size > 0,
        start <= s.len(),
    ensures
        pieces(s, chunks_from(start, s.len(), size)).flatten() == s.subrange(start as int, s.len() as int),
    decreases s.len() - start,
{
    let n = s.len();
    let cs = chunks_from(start, n, size);
    if start >= n {
        assert(pieces(s, cs) =~= Seq::<Seq<T>>::empty());
        assert(s.subrange(start as int, n as int) =~= Seq::<T>::empty());
    } else {
        let hi = vstd::math::min((start + size) as int, n as int);
        let next = if start + size <= n {
            start + size
        } else {
            n
        };
        let rest = chunks_from(next, n, size);
        if start + size <= n {
            lemma_pieces_reassemble(s, start + size, size);
        } else {
            assert(rest.len() == 0);
        }
        assert(pieces(s, cs) =~= seq![s.subrange(start as int, hi)] + pieces(s, rest));
        vstd::seq_lib::lemma_flatten_concat(seq![s.subrange(start as int, hi)], pieces(s, rest));
        assert(seq![s.subrange(start as int, hi)].flatten() == s.subrange(start as int, hi)) by {
            seq![s.subrange(start as int, hi)].lemma_flatten_one_element();
        }
        if start + size > n {
            assert(pieces(s, rest) =~= Seq::<Seq<T>>::empty());
            assert(pieces(s, rest).flatten() =~= Seq::<T>::empty());
        }
        assert(s.subrange(start as int, hi) + s.subrange(hi, n as int) =~= s.subrange(
            start as int,
            n as int,
        ));
        assert(next == hi);
    }
}

/// Work split into chunks and run chunk by chunk gives what the serial run gives, for
/// any element-wise computation `g`: the chunk results, put together in chunk order,
/// are `g` applied to every element in order.
pub proof fn lemma_parallel_matches_serial<A, T>(e: Seq<A>, workers: nat, g: spec_fn(A) -> T)
    requires
        workers >= 1,
    ensures
        chunk_plan(e.len(), workers).map_values(
            |b: (int, int)| e.subrange(b.0, b.1).map_values(g),
        ).flatten() == e.map_values(g),
{
    let n = e.len();
    let serial = e.map_values(g);
    if n == 0 {
        assert(chunk_plan(n, workers).map_values(
            |b: (int, int)| e.subrange(b.0, b.1).map_values(g),
        ) =~= Seq::<Seq<T>>::empty());
        assert(serial =~= Seq::<T>::empty());
    } else {
        let size = ceil_div(n, workers);
        assert(size > 0) by {
            if n >= workers {
                vstd::arithmetic::div_mod::lemma_div_non_zero(n as int, workers as int);
            } else {
                vstd::arithmetic::div_mod::lemma_small_mod(n, workers);
            }
        }
        let plan = chunks_from(0, n, size);
        lemma_chunk_positions(0, n, size);
        lemma_pieces_reassemble(serial, 0, size);
        assert(chunk_plan(n, workers).map_values(
            |b: (int, int)| e.subrange(b.0, b.1).map_values(g),
        ) =~~= pieces(serial, plan)) by {
            assert forall|k: int| 0 <= k < plan.len() implies e.subrange(
                plan[k].0,
                plan[k].1,
            ).map_values(g) =~= #[trigger] serial.subrange(plan[k].0, plan[k].1) by {
                assert(0 <= plan[k].0 <= plan[k].1 <= n) by (nonlinear_arith)
                    requires
                        plan[k] == (0 + k * size, vstd::math::min(0 + k * size + size, n as int)),
                        0 <= k < plan.len(),
                        plan.len() == ceil_div(n, size),
                        size > 0,
                ;
            }
        }
        assert(serial.subrange(0, n as int) =~= serial);
    }
}

/// Number of indices in each chunk when `len` indices are shared among `workers`
/// workers: `len / workers` rounded up.
pub fn chunk_size(len: usize, workers: usize) -> (r: usize)
    requires
        workers >= 1,
    ensures
        r == ceil_div(len as nat, workers as nat),
{
    let whole = len / workers;
    proof {
        if len % workers != 0 {
            vstd::arithmetic::div_mod::lemma_fundamental_div_mod(len as int, workers as int);
            if workers == 1 {
                vstd::arithmetic::div_mod::lemma_fundamental_div_mod_converse(
                    len as int,
                    1,
                    len as int,
                    0,
                );
            }
            assert(whole < usize::MAX) by (nonlinear_arith)
                requires
                    len == workers * whole + len % workers,
                    workers >= 2,
                    whole >= 0,
                    len % workers >= 0,
                    len <= usize::MAX,
            ;
        }
    }
    if len % workers == 0 {
        whole
    } else {
        whole + 1
    }
}

/// The `[start, end)` bounds of the chunks of `0..len` for `workers` workers, in order:
/// chunk `k` starts at `k * chunk_size(len, workers)`.
pub fn chunk_bounds(len: usize, workers: usize) -> (r: Vec<(usize, usize)>)
    requires
        workers >= 1,
    ensures
        as_int_pairs(r@) == chunk_plan(len as nat, workers as nat),
        len > 0 ==> r@.len() == ceil_div(len as nat, ceil_div(len as nat, workers as nat)),
        forall|k: int|
            0 <= k < r@.len() ==> {
                let size = ceil_div(len as nat, workers as nat) as int;
                &&& (#[trigger] r@[k]).0 == k * size
                &&& r@[k].1 == vstd::math::min(k * size + size, len as int)
            },
{
    let mut r: Vec<(usize, usize)> = Vec::new();
    if len == 0 {
        assert(as_int_pairs(r@) =~= Seq::<(int, int)>::empty());
        return r;
    }
    let size = chunk_size(len, workers);
    proof {
        if len >= workers {
            vstd::arithmetic::div_mod::lemma_div_non_zero(len as int, workers as int);
        } else {
            vstd::arithmetic::div_mod::lemma_small_mod(len as nat, workers as nat);
        }
    }
    assert(size > 0);
    let mut start: usize = 0;
    while start < len
        invariant
            size > 0,
            size == ceil_div(len as nat, workers as nat),
            start <= len,
            as_int_pairs(r@) + chunks_from(start as nat, len as nat, size as nat) == chunk_plan(
                len as nat,
                workers as nat,
            ),
        decreases len - start,
    {
        let end = if size <= len - start {
            start + size
        } else {
            len
        };
        let ghost before = r@;
        r.push((start, end));
        proof {
            assert(as_int_pairs(r@) =~= as_int_pairs(before).push((start as int, end as int)));
            let tail = chunks_from(start as nat, len as nat, size as nat);
            assert(tail == seq![(start as int, end as int)] + chunks_from(
                end as nat,
                len as nat,
                size as nat,
            ));
            assert(as_int_pairs(r@) + chunks_from(end as nat, len as nat, size as nat) =~= as_int_pairs(
                before,
            ) + tail);
        }
        start = end;
    }
    assert(chunks_from(start as nat, len as nat, size as nat) =~= Seq::<(int, int)>::empty());
    assert(as_int_pairs(r@) + Seq::<(int, int)>::empty() =~= as_int_pairs(r@));
    proof {
        lemma_chunk_positions(0, len as nat, size as nat);
        let plan = chunks_from(0, len as nat, size as nat);
        assert forall|k: int| 0 <= k < r@.len() implies {
            &&& (#[trigger] r@[k]).0 == k * size
            &&& r@[k].1 == vstd::math::min(k * size + size, len as int)
        } by {
            assert(as_int_pairs(r@)[k] == plan[k]);
        }
    }
    r
}

/// Concatenates chunk results in order.
pub fn concat_chunks<T>(parts: Vec<Vec<T>>) -> (r: Vec<T>)
    ensures
        r@ == views_of(parts@).flatten(),
{
    let mut parts = parts;
    let ghost all = views_of(parts@);
    let mut r: Vec<T> = Vec::new();
    let mut rest: Vec<Vec<T>> = Vec::new();
    // Take the parts out from the back, then put them together from the front.
    while parts.len() > 0
        invariant
            views_of(parts@) + views_of(rest@).reverse() == all,
        decreases parts.len(),
    {
        let ghost before_parts = parts@;
        let ghost before_rest = rest@;
        let last = parts.pop().unwrap();
        rest.push(last);
        proof {
            assert(views_of(before_parts) =~= views_of(parts@).push(last@));
            assert(views_of(rest@).reverse() =~= seq![last@] + views_of(before_rest).reverse());
            assert(views_of(parts@) + views_of(rest@).reverse() =~= views_of(before_parts)
                + views_of(before_rest).reverse());
        }
    }
    assert(views_of(rest@).reverse() =~= all);
    while rest.len() > 0
        invariant
            r@ + views_of(rest@).reverse().flatten() == all.flatten(),
        decreases rest.len(),
    {
        let ghost before_rest = rest@;
        let mut piece = rest.pop().unwrap();
        proof {
            assert(views_of(before_rest).reverse() =~= seq![piece@] + views_of(rest@).reverse());
            vstd::seq_lib::lemma_flatten_concat(seq![piece@], views_of(rest@).reverse());
            seq![piece@].lemma_flatten_one_element();
        }
        let ghost before_r = r@;
        r.append(&mut piece);
        proof {
            assert(r@ + views_of(rest@).reverse().flatten() =~= before_r + views_of(
                before_rest,
            ).reverse().flatten());
        }
    }
    assert(views_of(rest@).reverse() =~= Seq::<Seq<T>>::empty());
    assert(r@ =~= all.flatten());
    r
}

} // verus!
