//! Splitting a list of records into batches of bounded size.

use vstd::prelude::*;

verus! {

/// `items` cut into consecutive batches of `limit` items, the last one
/// holding what is left. Each batch comes with the number of items that are
/// out once it is: `done`, the number that went before, plus the sizes of
/// the batches up to it and its own.
pub open spec fn batches_of<T>(items: Seq<T>, limit: nat, done: nat) -> Seq<(Seq<T>, nat)>
    decreases items.len(),
{
    if limit == 0 || items.len() == 0 {
        Seq::empty()
    } else if items.len() <= limit {
        seq![(items, done + items.len())]
    } else {
        seq![(items.take(limit as int), done + limit)] + batches_of(
            items.skip(limit as int),
            limit,
            done + limit,
        )
    }
}

/// The items of the first `n` batches, one batch after the other.
pub open spec fn batches_joined<T>(batches: Seq<(Seq<T>, nat)>, n: nat) -> Seq<T>
    decreases n,
{
    if n == 0 {
        Seq::empty()
    } else {
        batches_joined(batches, (n - 1) as nat) + batches[n - 1].0
    }
}

/// The items that are in one of the first `n` batches.
pub open spec fn batches_union<T>(batches: Seq<(Seq<T>, nat)>, n: nat) -> Set<T>
    decreases n,
{
    if n == 0 {
        Set::empty()
    } else {
        batches_union(batches, (n - 1) as nat).union(batches[n - 1].0.to_set())
    }
}

/// The items in the batches are the items of the batches joined.
pub proof fn lemma_union_is_joined<T>(batches: Seq<(Seq<T>, nat)>, n: nat)
    ensures
        batches_union(batches, n) == batches_joined(batches, n).to_set(),
    decreases n,
{
    if n == 0 {
        assert(batches_joined(batches, 0).to_set() =~= Set::<T>::empty());
    } else {
        lemma_union_is_joined(batches, (n - 1) as nat);
        vstd::seq_lib::seq_to_set_distributes_over_add(
            batches_joined(batches, (n - 1) as nat),
            batches[n - 1].0,
        );
    }
}

/// The least number of batches of `limit` items that hold `len` items.
pub open spec fn batch_count(len: nat, limit: nat) -> nat {
    if limit == 0 {
        0
    } else {
        ((len + limit - 1) / (limit as int)) as nat
    }
}

/// Joining batches that follow a first one.
proof fn lemma_joined_after_first<T>(first: (Seq<T>, nat), rest: Seq<(Seq<T>, nat)>, n: nat)
    requires
        n <= rest.len(),
    ensures
        batches_joined(seq![first] + rest, n + 1) == first.0 + batches_joined(rest, n),
    decreases n,
{
    let all = seq![first] + rest;
    if n == 0 {
        assert(batches_joined(all, 0) =~= Seq::<T>::empty());
        assert(batches_joined(all, 1) =~= first.0);
        assert(first.0 + batches_joined(rest, 0) =~= first.0);
    } else {
        lemma_joined_after_first(first, rest, (n - 1) as nat);
        assert(all[n as int] == rest[n - 1]);
        assert(batches_joined(all, n + 1) =~= first.0 + batches_joined(rest, n));
    }
}

/// Batches cover the items exactly: there are as few of them as `limit`
/// allows, none is empty or holds more than `limit` items, every batch but
/// the last is full, and one after the other they are the items in their
/// order. The count that comes with a batch is the number of items up to
/// its end.
pub proof fn lemma_batches_cover<T>(items: Seq<T>, limit: nat, done: nat)
    requires
        limit > 0,
    ensures
        batches_of(items, limit, done).len() == batch_count(items.len(), limit),
        batches_joined(batches_of(items, limit, done), batches_of(items, limit, done).len())
            == items,
        batches_union(batches_of(items, limit, done), batches_of(items, limit, done).len())
            == items.to_set(),
        forall|j: int|
            0 <= j < batches_of(items, limit, done).len() ==> {
                let batch = #[trigger] batches_of(items, limit, done)[j];
                &&& 0 < batch.0.len() <= limit
                &&& batch.1 == done + batches_joined(
                    batches_of(items, limit, done),
                    (j + 1) as nat,
                ).len()
                &&& j + 1 < batches_of(items, limit, done).len() ==> batch.0.len() == limit
            },
    decreases items.len(),
{
    let batches = batches_of(items, limit, done);
    lemma_union_is_joined(batches, batches.len());
    if items.len() == 0 {
        assert(batch_count(0, limit) == 0) by (nonlinear_arith)
            requires
                limit > 0,
        ;
        assert(batches_joined(batches, 0) =~= items);
    } else if items.len() <= limit {
        assert(batch_count(items.len(), limit) == 1) by (nonlinear_arith)
            requires
                0 < items.len() <= limit,
        ;
        assert(batches_joined(batches, 0) =~= Seq::<T>::empty());
        assert(batches_joined(batches, 1) =~= items);
    } else {
        let first = (items.take(limit as int), done + limit);
        let tail = items.skip(limit as int);
        let rest = batches_of(tail, limit, done + limit);
        lemma_batches_cover(tail, limit, done + limit);
        assert(batch_count(items.len(), limit) == batch_count(tail.len(), limit) + 1)
            by (nonlinear_arith)
            requires
                limit > 0,
                items.len() > limit,
                tail.len() == items.len() - limit,
        ;
        lemma_joined_after_first(first, rest, rest.len());
        assert(first.0 + tail =~= items);
        assert forall|j: int| 0 <= j < batches.len() implies {
            let batch = #[trigger] batches[j];
            &&& 0 < batch.0.len() <= limit
            &&& batch.1 == done + batches_joined(batches, (j + 1) as nat).len()
            &&& j + 1 < batches.len() ==> batch.0.len() == limit
        } by {
            if j == 0 {
                assert(batches[0] == first);
                lemma_joined_after_first(first, rest, 0);
            } else {
                assert(batches[j] == rest[j - 1]);
                lemma_joined_after_first(first, rest, j as nat);
            }
        }
    }
}

} // verus!
