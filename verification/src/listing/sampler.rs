//! The sampler: the order in which selected businesses come out, and the cap on how
//! many do.

use vstd::prelude::*;
use vstd::multiset::Multiset;
use vstd::seq_lib::{lemma_seq_union_to_multiset_commutative, to_multiset_build, to_multiset_remove};

verus! {

/// The order of a listing.
#[derive(Clone, Copy, Debug, PartialEq, Eq, Structural)]
pub enum Order {
    /// By identity, lowest first. The same request gives the same listing.
    IdAscending,
    /// An order drawn anew for each request.
    Random,
}

/// The first `limit` items of `pool`, or all of it where it holds fewer.
pub open spec fn first<T>(pool: Seq<T>, limit: nat) -> Seq<T> {
    if limit <= pool.len() {
        pool.take(limit as int)
    } else {
        pool
    }
}

/// The place that the next draw picks among `n` candidates. Once the draws have run
/// out, the first candidate is picked.
pub open spec fn pick(draws: Seq<u64>, n: nat) -> int
    recommends
        n > 0,
{
    if draws.len() == 0 {
        0
    } else {
        draws[0] as int % n as int
    }
}

/// The draws that are left after one was used.
pub open spec fn rest(draws: Seq<u64>) -> Seq<u64> {
    if draws.len() == 0 {
        draws
    } else {
        draws.drop_first()
    }
}

/// Up to `count` items drawn from `pool` without putting any back: each draw picks one
/// of the items that are left, and that item leaves the pool.
pub open spec fn drawn<T>(pool: Seq<T>, draws: Seq<u64>, count: nat) -> Seq<T>
    decreases count,
{
    if count == 0 || pool.len() == 0 {
        Seq::empty()
    } else {
        let j = pick(draws, pool.len());
        seq![pool[j]] + drawn(pool.remove(j), rest(draws), (count - 1) as nat)
    }
}

/// What comes out of `pool` under `order` and `limit`.
pub open spec fn arranged<T>(pool: Seq<T>, order: Order, limit: nat, draws: Seq<u64>) -> Seq<T> {
    match order {
        Order::IdAscending => first(pool, limit),
        Order::Random => drawn(pool, draws, limit),
    }
}

/// Keeps the first `limit` items of `pool`.
pub fn cap<T>(pool: Vec<T>, limit: usize) -> (r: Vec<T>)
    ensures
        r@ == first(pool@, limit as nat),
{
    let mut pool = pool;
    pool.truncate(limit);
    pool
}

/// Draws up to `limit` items from `pool` without putting any back. `draws` holds the
/// random numbers to draw by.
pub fn sample<T>(pool: Vec<T>, limit: usize, draws: &Vec<u64>) -> (r: Vec<T>)
    ensures
        r@ == drawn(pool@, draws@, limit as nat),
{
    let ghost whole = pool@;
    let mut pool = pool;
    let mut out: Vec<T> = Vec::new();
    let mut k: usize = 0;
    proof {
        assert(draws@.skip(0) =~= draws@);
        assert(out@ + drawn(pool@, draws@, limit as nat) =~= drawn(whole, draws@, limit as nat));
    }
    while out.len() < limit && pool.len() > 0
        invariant
            out.len() <= limit,
            k <= draws.len(),
            k == draws.len() || k == out.len(),
            out@ + drawn(pool@, draws@.skip(k as int), (limit - out.len()) as nat) == drawn(
                whole,
                draws@,
                limit as nat,
            ),
        decreases pool.len(),
    {
        let ghost left = draws@.skip(k as int);
        let ghost before = pool@;
        let n: u64 = pool.len() as u64;
        let j: usize = if k < draws.len() {
            (draws[k] % n) as usize
        } else {
            0
        };
        assert(j == pick(left, before.len()));
        let item = pool.remove(j);
        out.push(item);
        if k < draws.len() {
            k += 1;
        }
        proof {
            assert(draws@.skip(k as int) =~= rest(left));
            let tail = drawn(pool@, rest(left), (limit - out.len()) as nat);
            assert(drawn(before, left, (limit - out.len() + 1) as nat) == seq![item] + tail);
            assert(out@ + tail =~= out@.drop_last() + (seq![item] + tail));
        }
    }
    proof {
        assert(out@ + Seq::<T>::empty() =~= out@);
    }
    out
}

/// Puts `pool` in `order` and keeps at most `limit` of it.
pub fn arrange<T>(pool: Vec<T>, order: Order, limit: usize, draws: &Vec<u64>) -> (r: Vec<T>)
    ensures
        r@ == arranged(pool@, order, limit as nat, draws@),
{
    match order {
        Order::IdAscending => cap(pool, limit),
        Order::Random => sample(pool, limit, draws),
    }
}

/// A draw gives as many items as were asked for, or the whole pool where it holds
/// fewer; and it gives no item more often than the pool holds it.
pub proof fn lemma_drawn_is_sample<T>(pool: Seq<T>, draws: Seq<u64>, count: nat)
    ensures
        drawn(pool, draws, count).len() == if count <= pool.len() {
            count
        } else {
            pool.len()
        },
        drawn(pool, draws, count).to_multiset().subset_of(pool.to_multiset()),
    decreases count,
{
    let out = drawn(pool, draws, count);
    if count == 0 || pool.len() == 0 {
        assert(out.to_multiset() =~= Multiset::<T>::empty()) by {
            out.to_multiset_ensures();
        }
    } else {
        let j = pick(draws, pool.len());
        let tail = drawn(pool.remove(j), rest(draws), (count - 1) as nat);
        lemma_drawn_is_sample(pool.remove(j), rest(draws), (count - 1) as nat);
        to_multiset_remove(pool, j);
        assert(out.to_multiset() =~= tail.to_multiset().insert(pool[j])) by {
            lemma_cons_multiset(pool[j], tail);
        }
        pool.to_multiset_ensures();
        assert(pool.contains(pool[j]));
    }
}

/// The items of a sequence with one more in front.
proof fn lemma_cons_multiset<T>(head: T, tail: Seq<T>)
    ensures
        (seq![head] + tail).to_multiset() =~= tail.to_multiset().insert(head),
{
    broadcast use vstd::multiset::group_multiset_axioms;

    lemma_seq_union_to_multiset_commutative(seq![head], tail);
    assert(tail + seq![head] =~= tail.push(head));
    to_multiset_build(tail, head);
}

/// Drawing commutes with any change made to each item: the draws pick places, and do
/// not look at what stands there.
pub proof fn lemma_arranged_map<T, U>(
    pool: Seq<T>,
    f: spec_fn(T) -> U,
    order: Order,
    limit: nat,
    draws: Seq<u64>,
)
    ensures
        arranged(pool.map_values(f), order, limit, draws) == arranged(pool, order, limit, draws).map_values(
            f,
        ),
    decreases limit,
{
    match order {
        Order::IdAscending => {
            assert(first(pool.map_values(f), limit) =~= first(pool, limit).map_values(f));
        },
        Order::Random => {
            if limit == 0 || pool.len() == 0 {
                assert(drawn(pool.map_values(f), draws, limit) =~= drawn(pool, draws, limit).map_values(
                    f,
                ));
            } else {
                let j = pick(draws, pool.len());
                lemma_arranged_map(pool.remove(j), f, order, (limit - 1) as nat, rest(draws));
                assert(pool.map_values(f).remove(j) =~= pool.remove(j).map_values(f));
                let tail = drawn(pool.remove(j), rest(draws), (limit - 1) as nat);
                assert((seq![pool[j]] + tail).map_values(f) =~= seq![f(pool[j])] + tail.map_values(f));
            }
        },
    }
}

/// A draw hands out items of the pool only, and the first items of a pool are items of
/// the pool.
pub proof fn lemma_arranged_from_pool<T>(pool: Seq<T>, order: Order, limit: nat, draws: Seq<u64>)
    ensures
        arranged(pool, order, limit, draws).len() == if limit <= pool.len() {
            limit
        } else {
            pool.len()
        },
        forall|i: int|
            0 <= i < arranged(pool, order, limit, draws).len() ==> pool.contains(
                #[trigger] arranged(pool, order, limit, draws)[i],
            ),
{
    let out = arranged(pool, order, limit, draws);
    match order {
        Order::IdAscending => {
            assert forall|i: int| 0 <= i < out.len() implies pool.contains(#[trigger] out[i]) by {
                assert(out[i] == pool[i]);
            }
        },
        Order::Random => {
            lemma_drawn_is_sample(pool, draws, limit);
            assert forall|i: int| 0 <= i < out.len() implies pool.contains(#[trigger] out[i]) by {
                out.to_multiset_ensures();
                pool.to_multiset_ensures();
                assert(out.contains(out[i]));
                assert(out.to_multiset().count(out[i]) > 0);
            }
        },
    }
}

} // verus!
