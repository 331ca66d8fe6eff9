//! The refresh cycle: when to ask the feed for the ranked list, what to do
//! with the answer, and what to ask for next.

use crate::backfill::{backfill_plan, plan_backfill};
use crate::cache::Cache;
use crate::error::FetchError;
use crate::item::{decimal_digits, push_decimal};
use crate::top_list::{truncated, TopList};
use crate::wire::{json_id_list, now_utc_seconds, parse_id_list, utf8_text};
use vstd::prelude::*;
use vstd::string::StringSliceAdditionalSpecFns;
use vstd::utf8::{decode_utf8, valid_utf8};

verus! {

/// Address of the ranked list of story ids.
pub const HN_URL_TOP_STORIES: &'static str =
    "https://hacker-news.firebaseio.com/v0/topstories.json";

/// Address of an item, up to the item's id.
pub const HN_URL_ITEM: &'static str = "https://hacker-news.firebaseio.com/v0/item/";

/// What follows the id in the address of an item.
pub const HN_URL_ITEM_SUFFIX: &'static str = ".json";

/// Seconds that must have passed since the last refresh before the next one.
pub const REFRESH_INTERVAL: i64 = 10;

/// Milliseconds after which a request to the feed is given up.
pub const REQUEST_TIMEOUT_MILLIS: u64 = 5000;

/// Milliseconds that the caller's event loop runs between two looks at the clock.
pub const TURN_MILLIS: u64 = 100;

/// The id list that a response body holds, or `None` where the body is not
/// UTF-8 or not the JSON text of such a list.
pub open spec fn decoded_id_list(body: Seq<u8>) -> Option<Seq<u64>> {
    if valid_utf8(body) {
        json_id_list(decode_utf8(body))
    } else {
        None
    }
}

/// What a request for the ranked list gave: the ids of its body, or nothing.
pub open spec fn rank_outcome(fetched: Result<&[u8], FetchError>) -> Option<Seq<u64>> {
    match fetched {
        Ok(body) => decoded_id_list(body@),
        Err(_) => None,
    }
}

/// The ranked list after a refresh: the first ids of a list that was fetched,
/// or the list of before where none was.
pub open spec fn refreshed(top: Seq<u64>, fetched: Option<Seq<u64>>) -> Seq<u64> {
    match fetched {
        Some(ids) => truncated(ids),
        None => top,
    }
}

/// The ranked list after a run of refreshes, given what each request for the
/// list gave.
pub open spec fn refreshed_all(top: Seq<u64>, outcomes: Seq<Option<Seq<u64>>>) -> Seq<u64>
    decreases outcomes.len(),
{
    if outcomes.len() == 0 {
        top
    } else {
        refreshed(refreshed_all(top, outcomes.drop_last()), outcomes.last())
    }
}

/// Reads the list of ranked ids from a response body.
pub fn decode_top_stories(body: &[u8]) -> (r: Result<Vec<u64>, FetchError>)
    ensures
        match r {
            Ok(ids) => decoded_id_list(body@) == Some(ids@),
            Err(e) => decoded_id_list(body@) is None && e == FetchError::Decode,
        },
{
    match utf8_text(body) {
        Some(text) => {
            proof {
                vstd::utf8::encode_utf8_decode_utf8(text@);
            }
            match parse_id_list(text) {
                Ok(ids) => Ok(ids),
                Err(_) => Err(FetchError::Decode),
            }
        },
        None => Err(FetchError::Decode),
    }
}

/// Puts a fetched list of ranked ids in place of `top`, cut to its first
/// `TOP_LIMIT` entries. A failed fetch leaves `top` as it is.
pub fn apply_top_stories(top: &mut TopList, fetched: Result<Vec<u64>, FetchError>) -> (r: Result<
    (),
    FetchError,
>)
    ensures
        match fetched {
            Ok(ids) => r is Ok && final(top)@ == truncated(ids@),
            Err(e) => r == Err::<(), FetchError>(e) && final(top)@ == old(top)@,
        },
{
    match fetched {
        Ok(ids) => {
            top.replace(ids);
            Ok(())
        },
        Err(e) => Err(e),
    }
}

/// First phase of a refresh: takes what the request for the ranked list gave.
///
/// A body that holds a list of ids replaces `top`, cut to its first
/// `TOP_LIMIT` entries. A failed request, or a body that cannot be read,
/// leaves `top` as it is; the error says which of the two it was.
pub fn update_top_stories(top: &mut TopList, fetched: Result<&[u8], FetchError>) -> (r: Result<
    (),
    FetchError,
>)
    ensures
        final(top)@ == refreshed(old(top)@, rank_outcome(fetched)),
        r is Ok <==> rank_outcome(fetched) is Some,
        r matches Err(e) ==> e == match fetched {
            Ok(_) => FetchError::Decode,
            Err(f) => f,
        },
{
    let ids = match fetched {
        Ok(body) => decode_top_stories(body),
        Err(e) => Err(e),
    };
    apply_top_stories(top, ids)
}

/// Second phase of a refresh, on the feed's own list: the ids of `top`
/// without an entry in `cache`, in rank order, no more than `BATCH_LIMIT`.
///
/// The list is taken as it stands, whether or not the first phase replaced it.
pub fn update_item_cache(top: &TopList, cache: &Cache) -> (plan: Vec<u64>)
    ensures
        plan@ == backfill_plan(top@, cache@.dom()),
{
    let ranked = top.snapshot();
    plan_backfill(&ranked, cache)
}

/// One refresh: the first phase, then the second, whatever the first gave.
///
/// Where the request for the ranked list failed, the ids to ask for are
/// those of the list as it stood before.
pub fn refresh(top: &mut TopList, cache: &Cache, fetched: Result<&[u8], FetchError>) -> (plan: Vec<
    u64,
>)
    ensures
        final(top)@ == refreshed(old(top)@, rank_outcome(fetched)),
        plan@ == backfill_plan(final(top)@, cache@.dom()),
{
    let _ = update_top_stories(top, fetched);
    update_item_cache(top, cache)
}

/// While every request for the ranked list fails, the list stays as it is,
/// and each refresh plans for the ids of that list.
pub proof fn lemma_stale_list(top: Seq<u64>, outcomes: Seq<Option<Seq<u64>>>, known: Set<u64>)
    requires
        forall|i: int| 0 <= i < outcomes.len() ==> outcomes[i] is None,
    ensures
        refreshed_all(top, outcomes) == top,
        backfill_plan(refreshed_all(top, outcomes), known) == backfill_plan(top, known),
    decreases outcomes.len(),
{
    if outcomes.len() > 0 {
        lemma_stale_list(top, outcomes.drop_last(), known);
    }
}

/// The address from which the item `id` is fetched.
pub open spec fn item_address(id: u64) -> Seq<char> {
    HN_URL_ITEM@ + decimal_digits(id as nat) + HN_URL_ITEM_SUFFIX@
}

/// The address from which the item `id` is fetched.
pub fn item_uri(id: u64) -> (uri: String)
    ensures
        uri@ == item_address(id),
{
    let mut uri = HN_URL_ITEM.to_owned();
    push_decimal(&mut uri, id);
    uri.append(HN_URL_ITEM_SUFFIX);
    uri
}

/// The clock of the refresh cycle.
#[derive(Debug)]
pub struct Refresher {
    last_update_time: i64,
}

impl Refresher {
    /// The time of the last refresh, in seconds since the Unix epoch; zero
    /// before the first one.
    pub closed spec fn last_update(&self) -> int {
        self.last_update_time as int
    }

    /// Whether a refresh is due at `now`, the last one having been at `last`.
    pub open spec fn is_due(last: int, now: int) -> bool {
        now > last + REFRESH_INTERVAL
    }

    /// A clock on which no refresh has happened yet.
    pub fn new() -> (r: Self)
        ensures
            r.last_update() == 0,
    {
        Refresher { last_update_time: 0 }
    }

    /// Says whether a refresh is due at `now`, and if so, takes `now` as the
    /// time of that refresh.
    pub fn tick(&mut self, now: i64) -> (due: bool)
        ensures
            due == Self::is_due(old(self).last_update(), now as int),
            final(self).last_update() == if due {
                now as int
            } else {
                old(self).last_update()
            },
    {
        let due = match self.last_update_time.checked_add(REFRESH_INTERVAL) {
            Some(next) => now > next,
            None => false,
        };
        if due {
            self.last_update_time = now;
        }
        due
    }

    /// Whether `due` and `after` are what `tick` gives at the reading `now`,
    /// the last refresh having been at `last`.
    pub open spec fn ticked(last: int, now: i64, due: bool, after: int) -> bool {
        &&& due == Self::is_due(last, now as int)
        &&& after == if due {
            now as int
        } else {
            last
        }
    }

    /// Reads the system clock and says whether a refresh is due now. If so,
    /// the reading becomes the time of that refresh.
    ///
    /// The clock decides the reading; the outcome is that of `tick` at it. So
    /// where no reading could be late enough, no refresh is due.
    pub fn poll(&mut self) -> (due: bool)
        ensures
            exists|now: i64| #[trigger]
                Self::ticked(old(self).last_update(), now, due, final(self).last_update()),
    {
        let now: i64 = now_utc_seconds();
        let due = self.tick(now);
        assert(Self::ticked(old(self).last_update(), now, due, self.last_update()));
        due
    }
}

} // verus!
