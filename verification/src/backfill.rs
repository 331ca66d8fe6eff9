//! Filling the store: which items to ask the feed for, and what to do with
//! the answers.

use crate::cache::{inserted_if_absent, store_extends, Cache};
use crate::error::FetchError;
use crate::item::{Item, ItemView};
use vstd::prelude::*;

verus! {

/// Largest number of items that one refresh asks for.
pub const BATCH_LIMIT: usize = 60;

/// Whether `id` is not among the ids in `known`.
pub open spec fn unknown_to(known: Set<u64>) -> spec_fn(u64) -> bool {
    |id: u64| !known.contains(id)
}

/// The ids of `ranked` that are not in `known`, in the order of `ranked`.
pub open spec fn missing_ids(ranked: Seq<u64>, known: Set<u64>) -> Seq<u64> {
    ranked.filter(unknown_to(known))
}

/// The ids that one refresh asks for: the first `BATCH_LIMIT` ids of `ranked`
/// that are not in `known`.
pub open spec fn backfill_plan(ranked: Seq<u64>, known: Set<u64>) -> Seq<u64> {
    let missing = missing_ids(ranked, known);
    if missing.len() <= BATCH_LIMIT {
        missing
    } else {
        missing.take(BATCH_LIMIT as int)
    }
}

/// The missing ids of the first `i + 1` ranks are those of the first `i`,
/// followed by the id at rank `i` where that one is missing.
proof fn lemma_missing_ids_step(ranked: Seq<u64>, known: Set<u64>, i: int)
    requires
        0 <= i < ranked.len(),
    ensures
        missing_ids(ranked.take(i + 1), known) == if known.contains(ranked[i]) {
            missing_ids(ranked.take(i), known)
        } else {
            missing_ids(ranked.take(i), known).push(ranked[i])
        },
{
    reveal(Seq::filter);
    assert(ranked.take(i + 1).drop_last() =~= ranked.take(i));
}

/// The missing ids of a list begin with the missing ids of each of its
/// beginnings.
proof fn lemma_missing_ids_prefix(ranked: Seq<u64>, known: Set<u64>, i: int)
    requires
        0 <= i <= ranked.len(),
    ensures
        missing_ids(ranked.take(i), known).len() <= missing_ids(ranked, known).len(),
        missing_ids(ranked, known).take(missing_ids(ranked.take(i), known).len() as int)
            == missing_ids(ranked.take(i), known),
{
    let head = ranked.take(i);
    let tail = ranked.skip(i);
    assert(head + tail =~= ranked);
    Seq::filter_distributes_over_add(head, tail, unknown_to(known));
    let found = missing_ids(head, known);
    assert((found + missing_ids(tail, known)).take(found.len() as int) =~= found);
}

/// The ids to ask the feed for: those of `ranked` without an entry in
/// `cache`, in rank order, and no more than `BATCH_LIMIT` of them.
pub fn plan_backfill(ranked: &Vec<u64>, cache: &Cache) -> (plan: Vec<u64>)
    ensures
        plan@ == backfill_plan(ranked@, cache@.dom()),
{
    let ghost known = cache@.dom();
    let n: usize = ranked.len();
    let mut plan: Vec<u64> = Vec::new();
    let mut i: usize = 0;
    proof {
        reveal(Seq::filter);
        assert(ranked@.take(0) =~= Seq::<u64>::empty());
    }
    while i < n && plan.len() < BATCH_LIMIT
        invariant
            n == ranked@.len(),
            i <= n,
            known == cache@.dom(),
            plan@ == missing_ids(ranked@.take(i as int), known),
            plan@.len() <= BATCH_LIMIT,
        decreases n - i,
    {
        let id: u64 = ranked[i];
        proof {
            lemma_missing_ids_step(ranked@, known, i as int);
        }
        if !cache.contains(id) {
            plan.push(id);
        }
        i = i + 1;
    }
    proof {
        lemma_missing_ids_prefix(ranked@, known, i as int);
        if i == n {
            assert(ranked@.take(n as int) =~= ranked@);
        }
    }
    plan
}

/// The store after the request for item `id` has ended: a fetched item is
/// stored as the feed delivers it, unless `id` already has an entry.
pub open spec fn received(
    store: Map<u64, ItemView>,
    id: u64,
    fetched: Result<Item, FetchError>,
) -> Map<u64, ItemView> {
    match fetched {
        Ok(item) => inserted_if_absent(store, id, item@.as_fetched()),
        Err(_) => store,
    }
}

/// Takes what the request for item `id` gave, and says whether it was stored.
///
/// A fetched item is stored under `id`, with neither local mark set, unless
/// `id` already has an entry. A failed request changes nothing, so the next
/// refresh asks for `id` again.
pub fn receive_item(cache: &mut Cache, id: u64, fetched: Result<Item, FetchError>) -> (stored: bool)
    ensures
        final(cache)@ == received(old(cache)@, id, fetched),
        stored == (fetched is Ok && !old(cache)@.contains_key(id)),
{
    match fetched {
        Ok(item) => {
            let mut item = item;
            item.clear_marks();
            cache.insert_if_absent(id, item)
        },
        Err(_) => false,
    }
}

/// The ids in the store after one refresh of which every request succeeded.
pub open spec fn after_cycle(ranked: Seq<u64>, known: Set<u64>) -> Set<u64> {
    known.union(backfill_plan(ranked, known).to_set())
}

/// The ids in the store after `n` refreshes of which every request succeeded,
/// the ranked list staying as it is.
pub open spec fn after_cycles(ranked: Seq<u64>, known: Set<u64>, n: nat) -> Set<u64>
    decreases n,
{
    if n == 0 {
        known
    } else {
        after_cycles(ranked, after_cycle(ranked, known), (n - 1) as nat)
    }
}

/// The store after the requests for the ids of `plan` have all succeeded, in
/// the order of `plan`, `feed` being the item that the feed holds for each id.
pub open spec fn received_batch(
    store: Map<u64, ItemView>,
    plan: Seq<u64>,
    feed: spec_fn(u64) -> Item,
) -> Map<u64, ItemView>
    decreases plan.len(),
{
    if plan.len() == 0 {
        store
    } else {
        received(
            received_batch(store, plan.drop_last(), feed),
            plan.last(),
            Ok(feed(plan.last())),
        )
    }
}

/// The store after one refresh of which every request succeeded.
pub open spec fn cycle_store(
    ranked: Seq<u64>,
    store: Map<u64, ItemView>,
    feed: spec_fn(u64) -> Item,
) -> Map<u64, ItemView> {
    received_batch(store, backfill_plan(ranked, store.dom()), feed)
}

/// The store after `n` refreshes of which every request succeeded, the
/// ranked list staying as it is.
pub open spec fn cycles_store(
    ranked: Seq<u64>,
    store: Map<u64, ItemView>,
    feed: spec_fn(u64) -> Item,
    n: nat,
) -> Map<u64, ItemView>
    decreases n,
{
    if n == 0 {
        store
    } else {
        cycles_store(ranked, cycle_store(ranked, store, feed), feed, (n - 1) as nat)
    }
}

/// Every id of a plan is an id of the ranked list that is not in the store,
/// and a plan is never longer than `BATCH_LIMIT`.
pub proof fn lemma_backfill_plan_sound(ranked: Seq<u64>, known: Set<u64>)
    ensures
        backfill_plan(ranked, known).len() <= BATCH_LIMIT,
        forall|k: int|
            0 <= k < backfill_plan(ranked, known).len() ==> {
                &&& ranked.contains(#[trigger] backfill_plan(ranked, known)[k])
                &&& !known.contains(backfill_plan(ranked, known)[k])
            },
{
    let missing = missing_ids(ranked, known);
    assert forall|k: int| 0 <= k < backfill_plan(ranked, known).len() implies {
        &&& ranked.contains(#[trigger] backfill_plan(ranked, known)[k])
        &&& !known.contains(backfill_plan(ranked, known)[k])
    } by {
        assert(backfill_plan(ranked, known)[k] == missing[k]);
        ranked.lemma_filter_pred(unknown_to(known), k);
        assert(missing.contains(missing[k]));
        ranked.lemma_filter_contains_rev(unknown_to(known), missing[k]);
    }
}

/// While an id of the ranked list is not in the store, the plan is not empty.
pub proof fn lemma_backfill_proceeds(ranked: Seq<u64>, known: Set<u64>, i: int)
    requires
        0 <= i < ranked.len(),
        !known.contains(ranked[i]),
    ensures
        backfill_plan(ranked, known).len() > 0,
{
    ranked.lemma_filter_contains(unknown_to(known), i);
}

/// A request for an item that succeeds puts its id in the store; one that
/// fails leaves the store as it is. Either way every entry of before stays
/// as it was.
pub proof fn lemma_received_ids(store: Map<u64, ItemView>, id: u64, fetched: Result<Item, FetchError>)
    ensures
        fetched is Ok ==> received(store, id, fetched).dom() == store.dom().insert(id),
        fetched is Err ==> received(store, id, fetched) == store,
        store_extends(store, received(store, id, fetched)),
        forall|other: u64|
            store.contains_key(other) ==> #[trigger] received(store, id, fetched)[other]
                == store[other],
{
    if fetched is Ok {
        assert(received(store, id, fetched).dom() =~= store.dom().insert(id));
    }
}

/// A list of which no entry passes the test has an empty filter.
proof fn lemma_filter_none(s: Seq<u64>, pred: spec_fn(u64) -> bool)
    requires
        forall|i: int| 0 <= i < s.len() ==> !pred(#[trigger] s[i]),
    ensures
        s.filter(pred).len() == 0,
    decreases s.len(),
{
    reveal(Seq::filter);
    if s.len() > 0 {
        lemma_filter_none(s.drop_last(), pred);
    }
}

/// The ids missing from a larger store are those missing from the smaller
/// one, without the ids that were added.
proof fn lemma_missing_ids_union(ranked: Seq<u64>, known: Set<u64>, added: Set<u64>)
    ensures
        missing_ids(ranked, known.union(added)) == missing_ids(ranked, known).filter(
            unknown_to(added),
        ),
    decreases ranked.len(),
{
    reveal(Seq::filter);
    if ranked.len() > 0 {
        let head = ranked.drop_last();
        lemma_missing_ids_union(head, known, added);
        let id = ranked.last();
        if !known.contains(id) {
            let found = missing_ids(head, known);
            assert(found.push(id).drop_last() =~= found);
        }
    }
}

/// One refresh of which every request succeeds takes `BATCH_LIMIT` ids off
/// the missing ones, or all of them where there are fewer.
pub proof fn lemma_cycle_progress(ranked: Seq<u64>, known: Set<u64>)
    ensures
        missing_ids(ranked, after_cycle(ranked, known)).len() + backfill_plan(ranked, known).len()
            <= missing_ids(ranked, known).len(),
{
    let missing = missing_ids(ranked, known);
    let plan = backfill_plan(ranked, known);
    let added = plan.to_set();
    let c = plan.len() as int;
    lemma_missing_ids_union(ranked, known, added);
    let head = missing.take(c);
    let tail = missing.skip(c);
    assert(head + tail =~= missing);
    assert(head =~= plan);
    Seq::filter_distributes_over_add(head, tail, unknown_to(added));
    assert forall|i: int| 0 <= i < head.len() implies !unknown_to(added)(#[trigger] head[i]) by {
        assert(plan.contains(head[i]));
    }
    lemma_filter_none(head, unknown_to(added));
    tail.lemma_filter_len(unknown_to(added));
}

/// After `n` refreshes of which every request succeeds, at most so many ids
/// are missing as were missing before, less `BATCH_LIMIT` for each refresh.
pub proof fn lemma_cycles_progress(ranked: Seq<u64>, known: Set<u64>, n: nat)
    ensures
        missing_ids(ranked, after_cycles(ranked, known, n)).len() <= missing_ids(ranked, known).len(),
        missing_ids(ranked, after_cycles(ranked, known, n)).len() == 0 || missing_ids(
            ranked,
            after_cycles(ranked, known, n),
        ).len() + n * BATCH_LIMIT <= missing_ids(ranked, known).len(),
    decreases n,
{
    if n > 0 {
        lemma_cycle_progress(ranked, known);
        lemma_cycles_progress(ranked, after_cycle(ranked, known), (n - 1) as nat);
    }
}

/// A batch of requests that all succeed adds the ids of its plan to the ids
/// in the store, and no other.
pub proof fn lemma_received_batch_ids(
    store: Map<u64, ItemView>,
    plan: Seq<u64>,
    feed: spec_fn(u64) -> Item,
)
    ensures
        received_batch(store, plan, feed).dom() == store.dom().union(plan.to_set()),
    decreases plan.len(),
{
    if plan.len() == 0 {
        assert(store.dom().union(plan.to_set()) =~= store.dom());
    } else {
        let head = plan.drop_last();
        lemma_received_batch_ids(store, head, feed);
        lemma_received_ids(received_batch(store, head, feed), plan.last(), Ok(feed(plan.last())));
        head.lemma_push_to_set_commute(plan.last());
        assert(head.push(plan.last()) =~= plan);
        assert(received_batch(store, plan, feed).dom() =~= store.dom().union(plan.to_set()));
    }
}

/// The ids in the store after `n` refreshes of which every request succeeded
/// are those that `after_cycles` gives.
pub proof fn lemma_cycles_store_ids(
    ranked: Seq<u64>,
    store: Map<u64, ItemView>,
    feed: spec_fn(u64) -> Item,
    n: nat,
)
    ensures
        cycles_store(ranked, store, feed, n).dom() == after_cycles(ranked, store.dom(), n),
    decreases n,
{
    if n > 0 {
        lemma_received_batch_ids(store, backfill_plan(ranked, store.dom()), feed);
        lemma_cycles_store_ids(ranked, cycle_store(ranked, store, feed), feed, (n - 1) as nat);
    }
}

/// The same on the ids alone: after enough refreshes of which every request
/// succeeded, every id of the ranked list is among the ids in the store.
pub proof fn lemma_ids_converge(ranked: Seq<u64>, known: Set<u64>, n: nat)
    requires
        n * BATCH_LIMIT >= ranked.len(),
    ensures
        forall|i: int|
            0 <= i < ranked.len() ==> after_cycles(ranked, known, n).contains(#[trigger] ranked[i]),
{
    let last = after_cycles(ranked, known, n);
    lemma_cycles_progress(ranked, known, n);
    ranked.lemma_filter_len(unknown_to(known));
    assert(missing_ids(ranked, last).len() == 0);
    assert forall|i: int| 0 <= i < ranked.len() implies last.contains(#[trigger] ranked[i]) by {
        if !last.contains(ranked[i]) {
            ranked.lemma_filter_contains(unknown_to(last), i);
        }
    }
}

/// With a ranked list of `K` ids that stays as it is, and a feed that
/// answers every request, the store holds every id of the list after any
/// number of refreshes that is at least `K / BATCH_LIMIT`, rounded up.
pub proof fn lemma_backfill_converges(
    ranked: Seq<u64>,
    store: Map<u64, ItemView>,
    feed: spec_fn(u64) -> Item,
    n: nat,
)
    requires
        n * BATCH_LIMIT >= ranked.len(),
    ensures
        forall|i: int|
            0 <= i < ranked.len() ==> cycles_store(ranked, store, feed, n).contains_key(
                #[trigger] ranked[i],
            ),
{
    lemma_cycles_store_ids(ranked, store, feed, n);
    lemma_ids_converge(ranked, store.dom(), n);
}

} // verus!
