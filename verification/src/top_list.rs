//! The ranked list of story ids.

use vstd::prelude::*;

verus! {

/// Largest number of ids that the ranked list keeps.
pub const TOP_LIMIT: usize = 60;

/// The first `TOP_LIMIT` entries of `ids`, or all of them where there are fewer.
pub open spec fn truncated(ids: Seq<u64>) -> Seq<u64> {
    if ids.len() <= TOP_LIMIT {
        ids
    } else {
        ids.take(TOP_LIMIT as int)
    }
}

/// A list that was cut holds no more than `TOP_LIMIT` ids, and they are the
/// first ids of the list as it came, in the order in which they came.
pub proof fn lemma_truncated(ids: Seq<u64>)
    ensures
        truncated(ids).len() <= TOP_LIMIT,
        truncated(ids).len() <= ids.len(),
        ids.len() <= TOP_LIMIT ==> truncated(ids) == ids,
        ids.len() >= TOP_LIMIT ==> truncated(ids).len() == TOP_LIMIT,
        forall|i: int| 0 <= i < truncated(ids).len() ==> #[trigger] truncated(ids)[i] == ids[i],
{
}

/// Story ids in rank order, best first, as of the last refresh that succeeded.
///
/// The list never holds more than `TOP_LIMIT` ids, and it only changes as a
/// whole: a reader sees the list of before a refresh or that of after it.
#[derive(Debug)]
pub struct TopList {
    x: Vec<u64>,
}

impl View for TopList {
    type V = Seq<u64>;

    closed spec fn view(&self) -> Seq<u64> {
        self.x@
    }
}

impl Clone for TopList {
    fn clone(&self) -> (r: Self)
        ensures
            r@ == self@,
    {
        proof {
            use_type_invariant(self);
        }
        TopList { x: self.x.clone() }
    }
}

impl Default for TopList {
    fn default() -> (r: Self)
        ensures
            r@ == Seq::<u64>::empty(),
    {
        TopList { x: Vec::new() }
    }
}

impl TopList {
    #[verifier::type_invariant]
    spec fn bounded(&self) -> bool {
        self.x@.len() <= TOP_LIMIT
    }

    /// The empty list, as it stands before the first refresh.
    pub fn new() -> (r: Self)
        ensures
            r@ == Seq::<u64>::empty(),
    {
        TopList { x: Vec::new() }
    }

    /// Number of ids in the list.
    pub fn len(&self) -> (n: usize)
        ensures
            n == self@.len(),
            n <= TOP_LIMIT,
    {
        proof {
            use_type_invariant(self);
        }
        self.x.len()
    }

    /// The id at rank `rank`, counted from zero, or `None` past the end.
    pub fn get(&self, rank: usize) -> (r: Option<u64>)
        ensures
            r == (if rank < self@.len() {
                Some(self@[rank as int])
            } else {
                None
            }),
    {
        if rank < self.x.len() {
            Some(self.x[rank])
        } else {
            None
        }
    }

    /// A copy of the whole list, in rank order.
    pub fn snapshot(&self) -> (ids: Vec<u64>)
        ensures
            ids@ == self@,
            ids@.len() <= TOP_LIMIT,
    {
        proof {
            use_type_invariant(self);
        }
        self.x.clone()
    }

    /// Puts the first `TOP_LIMIT` entries of `new_ids` in place of the list.
    pub fn replace(&mut self, new_ids: Vec<u64>)
        ensures
            final(self)@ == truncated(new_ids@),
    {
        let mut ids = new_ids;
        ids.truncate(TOP_LIMIT);
        self.x = ids;
    }
}

} // verus!
