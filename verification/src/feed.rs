//! The consumer's view of the feed: the visible items in rank order.

use crate::backfill::{backfill_plan, receive_item, received};
use crate::cache::{hidden_marked, is_visible, seen_marked, store_extends, Cache};
use crate::error::FetchError;
use crate::item::{Item, ItemView};
use crate::refresher::{rank_outcome, refresh, refreshed};
use crate::top_list::{TopList, TOP_LIMIT};
use vstd::prelude::*;

verus! {

/// The first rank at or after `from` whose id has an entry that is not hidden,
/// or the length of `top` where there is none.
pub open spec fn next_visible(top: Seq<u64>, store: Map<u64, ItemView>, from: int) -> int
    decreases top.len() - from,
{
    if from < 0 || from >= top.len() {
        top.len() as int
    } else if is_visible(store, top[from]) {
        from
    } else {
        next_visible(top, store, from + 1)
    }
}

/// The ids of `top` that have an entry that is not hidden, in the order of `top`.
pub open spec fn visible_ids(top: Seq<u64>, store: Map<u64, ItemView>) -> Seq<u64> {
    top.filter(|id: u64| is_visible(store, id))
}

/// The store with the entry of every id in `ids` marked as seen.
pub open spec fn seen_marked_all(store: Map<u64, ItemView>, ids: Set<u64>) -> Map<u64, ItemView> {
    Map::new(
        |id: u64| store.contains_key(id),
        |id: u64|
            if ids.contains(id) {
                store[id].as_seen()
            } else {
                store[id]
            },
    )
}

/// Between `from` and the next visible rank nothing is visible, and the rank
/// found is visible unless it is the end of the list.
pub proof fn lemma_next_visible(top: Seq<u64>, store: Map<u64, ItemView>, from: int)
    requires
        0 <= from <= top.len(),
    ensures
        from <= next_visible(top, store, from) <= top.len(),
        forall|i: int| from <= i < next_visible(top, store, from) ==> !is_visible(store, #[trigger] top[i]),
        next_visible(top, store, from) < top.len() ==> is_visible(
            store,
            top[next_visible(top, store, from)],
        ),
    decreases top.len() - from,
{
    if from < top.len() && !is_visible(store, top[from]) {
        lemma_next_visible(top, store, from + 1);
    }
}

/// Two stores that show the same ids lead a traversal to the same rank.
proof fn lemma_next_visible_same(
    top: Seq<u64>,
    a: Map<u64, ItemView>,
    b: Map<u64, ItemView>,
    from: int,
)
    requires
        forall|id: u64| is_visible(a, id) == is_visible(b, id),
    ensures
        next_visible(top, a, from) == next_visible(top, b, from),
    decreases top.len() - from,
{
    if 0 <= from < top.len() && !is_visible(a, top[from]) {
        lemma_next_visible_same(top, a, b, from + 1);
    }
}

/// The visible ids of the first `i + 1` ranks are those of the first `i`,
/// followed by the id at rank `i` where that one is visible.
proof fn lemma_visible_ids_step(top: Seq<u64>, store: Map<u64, ItemView>, i: int)
    requires
        0 <= i < top.len(),
    ensures
        visible_ids(top.take(i + 1), store) == if is_visible(store, top[i]) {
            visible_ids(top.take(i), store).push(top[i])
        } else {
            visible_ids(top.take(i), store)
        },
{
    reveal(Seq::filter);
    assert(top.take(i + 1).drop_last() =~= top.take(i));
}

/// Ranks that are not visible add nothing to the visible ids.
proof fn lemma_visible_ids_skip(top: Seq<u64>, store: Map<u64, ItemView>, from: int, to: int)
    requires
        0 <= from <= to <= top.len(),
        forall|i: int| from <= i < to ==> !is_visible(store, #[trigger] top[i]),
    ensures
        visible_ids(top.take(to), store) == visible_ids(top.take(from), store),
    decreases to - from,
{
    if from < to {
        lemma_visible_ids_skip(top, store, from, to - 1);
        lemma_visible_ids_step(top, store, to - 1);
    }
}

/// The ranks of `top` whose id has an entry that is not hidden, in rising order.
pub open spec fn visible_ranks(top: Seq<u64>, store: Map<u64, ItemView>) -> Seq<int>
    decreases top.len(),
{
    if top.len() == 0 {
        Seq::empty()
    } else {
        let rest = visible_ranks(top.drop_last(), store);
        if is_visible(store, top.last()) {
            rest.push(top.len() - 1)
        } else {
            rest
        }
    }
}

/// The visible ids come in rank order: the k-th of them is the id at the
/// k-th visible rank, the visible ranks rise strictly, and every rank whose
/// id is visible is among them.
pub proof fn lemma_rank_order(top: Seq<u64>, store: Map<u64, ItemView>)
    ensures
        visible_ranks(top, store).len() == visible_ids(top, store).len(),
        forall|k: int|
            0 <= k < visible_ranks(top, store).len() ==> {
                &&& 0 <= #[trigger] visible_ranks(top, store)[k] < top.len()
                &&& top[visible_ranks(top, store)[k]] == visible_ids(top, store)[k]
            },
        forall|j: int, k: int|
            0 <= j < k < visible_ranks(top, store).len() ==> #[trigger] visible_ranks(top, store)[j]
                < #[trigger] visible_ranks(top, store)[k],
        forall|p: int|
            0 <= p < top.len() && is_visible(store, #[trigger] top[p]) ==> visible_ranks(
                top,
                store,
            ).contains(p),
    decreases top.len(),
{
    reveal(Seq::filter);
    if top.len() > 0 {
        let head = top.drop_last();
        lemma_rank_order(head, store);
        let ranks = visible_ranks(top, store);
        let before = visible_ranks(head, store);
        assert forall|p: int| 0 <= p < top.len() && is_visible(store, #[trigger] top[p]) implies ranks.contains(
            p,
        ) by {
            if p < top.len() - 1 {
                assert(head[p] == top[p]);
                assert(before.contains(p));
                let k = choose|k: int| 0 <= k < before.len() && before[k] == p;
                assert(ranks[k] == p);
            } else {
                assert(ranks[ranks.len() - 1] == p);
            }
        }
    }
}

/// No hidden item and no id without an entry is among the visible ids.
pub proof fn lemma_visible_ids_shown(top: Seq<u64>, store: Map<u64, ItemView>)
    ensures
        forall|k: int|
            0 <= k < visible_ids(top, store).len() ==> is_visible(
                store,
                #[trigger] visible_ids(top, store)[k],
            ),
{
    assert forall|k: int| 0 <= k < visible_ids(top, store).len() implies is_visible(
        store,
        #[trigger] visible_ids(top, store)[k],
    ) by {
        top.lemma_filter_pred(|id: u64| is_visible(store, id), k);
    }
}

/// A pass changes the store by seen marks alone: every entry stays, with what
/// the feed delivered for it and with its hidden mark as it was.
pub proof fn lemma_pass_keeps_store(store: Map<u64, ItemView>, ids: Set<u64>)
    ensures
        store_extends(store, seen_marked_all(store, ids)),
        seen_marked_all(store, ids).dom() == store.dom(),
        forall|id: u64|
            store.contains_key(id) ==> (#[trigger] seen_marked_all(store, ids)[id]).hidden
                == store[id].hidden,
{
    assert(seen_marked_all(store, ids).dom() =~= store.dom());
}

/// A cursor over the ranked list.
///
/// Each call of `next` hands out the next visible item in rank order. When the
/// list is exhausted the cursor goes back to the top, so that the next call
/// starts a new pass.
#[derive(Debug)]
pub struct HackerNewsIterator {
    idx: usize,
}

impl HackerNewsIterator {
    /// The rank at which the next call of `next` starts to look.
    pub closed spec fn position(&self) -> nat {
        self.idx as nat
    }

    /// A cursor at the top of the list.
    pub fn new() -> (r: Self)
        ensures
            r.position() == 0,
    {
        HackerNewsIterator { idx: 0 }
    }

    /// Hands out the next visible item of `top` and marks it as seen in `cache`.
    ///
    /// Ids without an entry and hidden items are passed over. Returns `None`,
    /// and goes back to the top, when no visible item is left in this pass.
    pub fn next(&mut self, top: &TopList, cache: &mut Cache) -> (r: Option<Item>)
        ensures
            r matches Some(item) ==> !item@.hidden,
            ({
                let p = next_visible(top@, old(cache)@, old(self).position() as int);
                if p < top@.len() {
                    &&& r matches Some(item) && item@ == old(cache)@[top@[p]].as_seen()
                    &&& final(cache)@ == seen_marked(old(cache)@, top@[p])
                    &&& final(self).position() == p + 1
                } else {
                    &&& r is None
                    &&& final(cache)@ == old(cache)@
                    &&& final(self).position() == 0
                }
            }),
    {
        let n: usize = top.len();
        proof {
            if self.idx <= n {
                lemma_next_visible(top@, cache@, self.idx as int);
            }
        }
        while self.idx < n
            invariant
                n == top@.len(),
                cache@ == old(cache)@,
                next_visible(top@, cache@, self.idx as int) == next_visible(
                    top@,
                    old(cache)@,
                    old(self).idx as int,
                ),
            decreases n - self.idx,
        {
            if let Some(id) = top.get(self.idx) {
                if cache.shows(id) {
                    cache.mark_seen(id);
                    self.idx = self.idx + 1;
                    return cache.get(id);
                }
            }
            self.idx = self.idx + 1;
        }
        self.idx = 0;
        None
    }
}

/// One pass over `top`: every visible item in rank order, each marked as seen
/// in `cache` as it is handed out.
pub fn visible_sequence(top: &TopList, cache: &mut Cache) -> (out: Vec<Item>)
    ensures
        out@.len() == visible_ids(top@, old(cache)@).len(),
        forall|k: int|
            0 <= k < out@.len() ==> (#[trigger] out@[k])@ == old(cache)@[visible_ids(
                top@,
                old(cache)@,
            )[k]].as_seen(),
        forall|k: int| 0 <= k < out@.len() ==> !(#[trigger] out@[k])@.hidden,
        final(cache)@ == seen_marked_all(old(cache)@, visible_ids(top@, old(cache)@).to_set()),
{
    let ghost store = cache@;
    let ghost ranked = top@;
    let ghost ids: Seq<u64> = Seq::empty();
    let mut out: Vec<Item> = Vec::new();
    let mut cursor = HackerNewsIterator::new();
    proof {
        reveal(Seq::filter);
        assert(ranked.take(0) =~= Seq::<u64>::empty());
        assert(cache@ =~= seen_marked_all(store, ids.to_set()));
    }
    loop
        invariant_except_break
            cursor.position() <= ranked.len(),
            ids == visible_ids(ranked.take(cursor.position() as int), store),
        invariant
            ranked == top@,
            out@.len() == ids.len(),
            forall|k: int| 0 <= k < out@.len() ==> (#[trigger] out@[k])@ == store[ids[k]].as_seen(),
            forall|k: int| 0 <= k < ids.len() ==> is_visible(store, #[trigger] ids[k]),
            cache@ == seen_marked_all(store, ids.to_set()),
        ensures
            ids == visible_ids(ranked, store),
            out@.len() == ids.len(),
            forall|k: int| 0 <= k < out@.len() ==> (#[trigger] out@[k])@ == store[ids[k]].as_seen(),
            forall|k: int| 0 <= k < ids.len() ==> is_visible(store, #[trigger] ids[k]),
            cache@ == seen_marked_all(store, ids.to_set()),
        decreases ranked.len() - cursor.position(),
    {
        let ghost from = cursor.position() as int;
        let ghost before = cache@;
        proof {
            lemma_next_visible_same(ranked, before, store, from);
            lemma_next_visible(ranked, store, from);
            lemma_visible_ids_skip(ranked, store, from, next_visible(ranked, store, from));
        }
        match cursor.next(top, cache) {
            Some(item) => {
                let ghost p = next_visible(ranked, store, from);
                proof {
                    lemma_visible_ids_step(ranked, store, p);
                    ids.lemma_push_to_set_commute(ranked[p]);
                    assert(cache@ =~= seen_marked_all(store, ids.push(ranked[p]).to_set()));
                    ids = ids.push(ranked[p]);
                }
                out.push(item);
            },
            None => {
                proof {
                    assert(ranked.take(ranked.len() as int) =~= ranked);
                }
                break ;
            },
        }
    }
    out
}

/// The state of the feed: the ranked list and the store of items.
#[derive(Debug)]
pub struct IHackerNews {
    /// Story ids in rank order.
    pub top: TopList,
    /// Fetched items by id.
    pub cache: Cache,
}

impl Default for IHackerNews {
    fn default() -> (r: Self)
        ensures
            r.top@ == Seq::<u64>::empty(),
            r.cache@ == Map::<u64, ItemView>::empty(),
    {
        IHackerNews { top: TopList::new(), cache: Cache::new() }
    }
}

/// Main interface to the feed.
///
/// It exposes the ranked list in the most recently sorted order, the items
/// that were fetched for it, and a mark to hide an item from later passes.
#[derive(Debug)]
pub struct HackerNews {
    x: IHackerNews,
}

impl Default for HackerNews {
    fn default() -> (r: Self)
        ensures
            r.ranked() == Seq::<u64>::empty(),
            r.store() == Map::<u64, ItemView>::empty(),
    {
        HackerNews { x: IHackerNews::default() }
    }
}

impl HackerNews {
    /// The ids that the feed tracks, in rank order.
    pub closed spec fn ranked(&self) -> Seq<u64> {
        self.x.top@
    }

    /// The items that the feed holds, by id.
    pub closed spec fn store(&self) -> Map<u64, ItemView> {
        self.x.cache@
    }

    /// A feed over the given state.
    pub fn from_state(state: IHackerNews) -> (r: Self)
        ensures
            r.ranked() == state.top@,
            r.store() == state.cache@,
    {
        HackerNews { x: state }
    }

    /// The ranked list of the feed.
    pub fn top(&self) -> (r: &TopList)
        ensures
            r@ == self.ranked(),
    {
        &self.x.top
    }

    /// The store of the feed.
    pub fn cache(&self) -> (r: &Cache)
        ensures
            r@ == self.store(),
    {
        &self.x.cache
    }

    /// Return number of items currently in the 'top list', hidden or not.
    pub fn len(&self) -> (n: usize)
        ensures
            n == self.ranked().len(),
            n <= TOP_LIMIT,
    {
        self.x.top.len()
    }

    /// Hide an item so it isn't returned in future iterator passes.
    ///
    /// An item whose id has no entry in the store changes nothing.
    pub fn hide_item(&mut self, item: &Item)
        ensures
            final(self).store() == hidden_marked(old(self).store(), item@.id),
            final(self).ranked() == old(self).ranked(),
    {
        let id: u64 = item.id();
        self.x.cache.mark_hidden(id);
    }

    /// One refresh: takes what the request for the ranked list gave, and
    /// returns the ids to ask the feed for.
    pub fn refresh(&mut self, fetched: Result<&[u8], FetchError>) -> (plan: Vec<u64>)
        ensures
            final(self).ranked() == refreshed(old(self).ranked(), rank_outcome(fetched)),
            final(self).store() == old(self).store(),
            plan@ == backfill_plan(final(self).ranked(), old(self).store().dom()),
    {
        refresh(&mut self.x.top, &self.x.cache, fetched)
    }

    /// Takes what the request for item `id` gave, and says whether it was
    /// stored.
    pub fn receive_item(&mut self, id: u64, fetched: Result<Item, FetchError>) -> (stored: bool)
        ensures
            final(self).store() == received(old(self).store(), id, fetched),
            final(self).ranked() == old(self).ranked(),
            stored == (fetched is Ok && !old(self).store().contains_key(id)),
    {
        receive_item(&mut self.x.cache, id, fetched)
    }

    /// A cursor at the top of the list, for a new pass.
    pub fn into_iter(&self) -> (r: HackerNewsIterator)
        ensures
            r.position() == 0,
    {
        HackerNewsIterator::new()
    }

    /// Hands out the next visible item for `cursor` and marks it as seen.
    pub fn next(&mut self, cursor: &mut HackerNewsIterator) -> (r: Option<Item>)
        ensures
            final(self).ranked() == old(self).ranked(),
            r matches Some(item) ==> !item@.hidden,
            ({
                let top = old(self).ranked();
                let p = next_visible(top, old(self).store(), old(cursor).position() as int);
                if p < top.len() {
                    &&& r matches Some(item) && item@ == old(self).store()[top[p]].as_seen()
                    &&& final(self).store() == seen_marked(old(self).store(), top[p])
                    &&& final(cursor).position() == p + 1
                } else {
                    &&& r is None
                    &&& final(self).store() == old(self).store()
                    &&& final(cursor).position() == 0
                }
            }),
    {
        cursor.next(&self.x.top, &mut self.x.cache)
    }

    /// One pass over the feed: every visible item in rank order, each marked
    /// as seen as it is handed out.
    pub fn visible_sequence(&mut self) -> (out: Vec<Item>)
        ensures
            final(self).ranked() == old(self).ranked(),
            out@.len() == visible_ids(old(self).ranked(), old(self).store()).len(),
            forall|k: int|
                0 <= k < out@.len() ==> (#[trigger] out@[k])@ == old(self).store()[visible_ids(
                    old(self).ranked(),
                    old(self).store(),
                )[k]].as_seen(),
            forall|k: int| 0 <= k < out@.len() ==> !(#[trigger] out@[k])@.hidden,
            final(self).store() == seen_marked_all(
                old(self).store(),
                visible_ids(old(self).ranked(), old(self).store()).to_set(),
            ),
    {
        visible_sequence(&self.x.top, &mut self.x.cache)
    }
}

} // verus!
