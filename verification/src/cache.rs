//! The store of fetched items.

use crate::item::{Item, ItemView};
use std::collections::BTreeMap;
use vstd::prelude::*;

verus! {

/// The store with `item` under `id`, unless `id` already has an entry.
pub open spec fn inserted_if_absent(
    store: Map<u64, ItemView>,
    id: u64,
    item: ItemView,
) -> Map<u64, ItemView> {
    if store.contains_key(id) {
        store
    } else {
        store.insert(id, item)
    }
}

/// The store with the entry of `id` hidden, where it has one.
pub open spec fn hidden_marked(store: Map<u64, ItemView>, id: u64) -> Map<u64, ItemView> {
    if store.contains_key(id) {
        store.insert(id, store[id].as_hidden())
    } else {
        store
    }
}

/// The store with the entry of `id` marked as seen, where it has one.
pub open spec fn seen_marked(store: Map<u64, ItemView>, id: u64) -> Map<u64, ItemView> {
    if store.contains_key(id) {
        store.insert(id, store[id].as_seen())
    } else {
        store
    }
}

/// Whether `id` has an entry that is not hidden.
pub open spec fn is_visible(store: Map<u64, ItemView>, id: u64) -> bool {
    store.contains_key(id) && !store[id].hidden
}

/// Whether `after` holds all that `before` holds: each entry is still there
/// with what the feed delivered for it, and no local mark was taken back.
pub open spec fn store_extends(before: Map<u64, ItemView>, after: Map<u64, ItemView>) -> bool {
    forall|id: u64| #[trigger]
        before.contains_key(id) ==> {
            &&& after.contains_key(id)
            &&& after[id].as_fetched() == before[id].as_fetched()
            &&& (before[id].seen ==> after[id].seen)
            &&& (before[id].hidden ==> after[id].hidden)
        }
}

/// No change that the store allows removes an entry, alters what the feed
/// delivered for it, or takes a local mark back.
pub proof fn lemma_store_only_grows(store: Map<u64, ItemView>, id: u64, item: ItemView)
    ensures
        store_extends(store, store),
        store_extends(store, inserted_if_absent(store, id, item)),
        store_extends(store, hidden_marked(store, id)),
        store_extends(store, seen_marked(store, id)),
{
}

/// What holds of each change holds of any run of changes.
pub proof fn lemma_store_extends_transitive(
    a: Map<u64, ItemView>,
    b: Map<u64, ItemView>,
    c: Map<u64, ItemView>,
)
    requires
        store_extends(a, b),
        store_extends(b, c),
    ensures
        store_extends(a, c),
{
    assert forall|id: u64| #[trigger] a.contains_key(id) implies {
        &&& c.contains_key(id)
        &&& c[id].as_fetched() == a[id].as_fetched()
        &&& (a[id].seen ==> c[id].seen)
        &&& (a[id].hidden ==> c[id].hidden)
    } by {
        assert(b.contains_key(id));
    }
}

/// Hiding an id twice leaves the store as hiding it once does.
pub proof fn lemma_hide_idempotent(store: Map<u64, ItemView>, id: u64)
    ensures
        hidden_marked(hidden_marked(store, id), id) == hidden_marked(store, id),
{
    assert(hidden_marked(hidden_marked(store, id), id) =~= hidden_marked(store, id));
}

/// Hiding an id touches no other entry and adds none, and an id that was
/// hidden is not visible.
pub proof fn lemma_hide_effect(store: Map<u64, ItemView>, id: u64)
    ensures
        hidden_marked(store, id).dom() == store.dom(),
        !is_visible(hidden_marked(store, id), id),
        forall|other: u64|
            other != id && store.contains_key(other) ==> #[trigger] hidden_marked(store, id)[other]
                == store[other],
{
    assert(hidden_marked(store, id).dom() =~= store.dom());
}

/// Of two attempts to store an item under one id, the first one wins: the
/// store afterwards is the store after the first attempt alone. If the id had
/// no entry before, its entry is the first item, whole.
pub proof fn lemma_first_insert_wins(
    store: Map<u64, ItemView>,
    id: u64,
    first: ItemView,
    second: ItemView,
)
    ensures
        inserted_if_absent(inserted_if_absent(store, id, first), id, second) == inserted_if_absent(
            store,
            id,
            first,
        ),
        inserted_if_absent(store, id, first).dom() == store.dom().insert(id),
        !store.contains_key(id) ==> inserted_if_absent(
            inserted_if_absent(store, id, first),
            id,
            second,
        )[id] == first,
        store.contains_key(id) ==> inserted_if_absent(
            inserted_if_absent(store, id, first),
            id,
            second,
        )[id] == store[id],
{
    assert(inserted_if_absent(store, id, first).dom() =~= store.dom().insert(id));
}

/// Fetched items by id.
///
/// An entry is made once, by the first fetch of its id that succeeds, and is
/// never removed. After that only its two local marks change.
#[derive(Debug)]
pub struct Cache {
    x: BTreeMap<u64, Item>,
}

impl View for Cache {
    type V = Map<u64, ItemView>;

    closed spec fn view(&self) -> Map<u64, ItemView> {
        Map::new(|id: u64| self.x@.contains_key(id), |id: u64| self.x@[id]@)
    }
}

impl Default for Cache {
    fn default() -> (r: Self)
        ensures
            r@ == Map::<u64, ItemView>::empty(),
    {
        let r = Cache { x: BTreeMap::new() };
        assert(r@ =~= Map::<u64, ItemView>::empty());
        r
    }
}

impl Cache {
    /// The empty store.
    pub fn new() -> (r: Self)
        ensures
            r@ == Map::<u64, ItemView>::empty(),
    {
        let r = Cache { x: BTreeMap::new() };
        assert(r@ =~= Map::<u64, ItemView>::empty());
        r
    }

    /// Number of items in the store.
    pub fn len(&self) -> (n: usize)
        ensures
            n == self@.len(),
    {
        assert(self@.dom() =~= self.x@.dom());
        self.x.len()
    }

    /// Whether the store has an entry for `id`.
    pub fn contains(&self, id: u64) -> (r: bool)
        ensures
            r == self@.contains_key(id),
    {
        self.x.contains_key(&id)
    }

    /// Whether `id` has an entry that is not hidden.
    pub fn shows(&self, id: u64) -> (r: bool)
        ensures
            r == is_visible(self@, id),
    {
        match self.x.get(&id) {
            Some(item) => !item.is_hidden(),
            None => false,
        }
    }

    /// A copy of the entry of `id`, or `None` where there is none.
    pub fn get(&self, id: u64) -> (r: Option<Item>)
        ensures
            match r {
                Some(item) => self@.contains_key(id) && item@ == self@[id],
                None => !self@.contains_key(id),
            },
    {
        match self.x.get(&id) {
            Some(item) => Some(item.clone()),
            None => None,
        }
    }

    /// Stores `item` under `id` unless `id` already has an entry, and says
    /// whether it was stored.
    pub fn insert_if_absent(&mut self, id: u64, item: Item) -> (stored: bool)
        ensures
            final(self)@ == inserted_if_absent(old(self)@, id, item@),
            stored == !old(self)@.contains_key(id),
    {
        if self.x.contains_key(&id) {
            false
        } else {
            self.x.insert(id, item);
            assert(self@ =~= old(self)@.insert(id, item@));
            true
        }
    }

    /// Hides the entry of `id`. An id without an entry is left out.
    pub fn mark_hidden(&mut self, id: u64)
        ensures
            final(self)@ == hidden_marked(old(self)@, id),
    {
        match self.x.remove(&id) {
            Some(item) => {
                let mut item = item;
                item.mark_hidden();
                self.x.insert(id, item);
                assert(self@ =~= hidden_marked(old(self)@, id));
            },
            None => {
                assert(self@ =~= old(self)@);
            },
        }
    }

    /// Marks the entry of `id` as handed out. An id without an entry is left out.
    pub(crate) fn mark_seen(&mut self, id: u64)
        ensures
            final(self)@ == seen_marked(old(self)@, id),
    {
        match self.x.remove(&id) {
            Some(item) => {
                let mut item = item;
                item.mark_seen();
                self.x.insert(id, item);
                assert(self@ =~= seen_marked(old(self)@, id));
            },
            None => {
                assert(self@ =~= old(self)@);
            },
        }
    }
}

} // verus!
