use hn::backfill::{plan_backfill, receive_item, BATCH_LIMIT};
use hn::refresher::{
    apply_top_stories, decode_top_stories, item_uri, refresh, update_item_cache,
    update_top_stories, HN_URL_ITEM, HN_URL_TOP_STORIES, REFRESH_INTERVAL,
    REQUEST_TIMEOUT_MILLIS, TURN_MILLIS,
};
use hn::{Cache, FetchError, HackerNews, Item, Refresher, TopList};

fn story(id: u64) -> Item {
    Item::new(
        id,
        "author".to_string(),
        1_500_000_000,
        "story".to_string(),
        Some(format!("story {}", id)),
        None,
        None,
        None,
        None,
        None,
    )
}

fn json_list(ids: &[u64]) -> String {
    let parts: Vec<String> = ids.iter().map(|i| i.to_string()).collect();
    format!("[{}]", parts.join(","))
}

#[test]
fn constants_of_the_cycle() {
    assert_eq!(REFRESH_INTERVAL, 10);
    assert_eq!(REQUEST_TIMEOUT_MILLIS, 5000);
    assert_eq!(TURN_MILLIS, 100);
    assert_eq!(BATCH_LIMIT, 60);
    assert_eq!(HN_URL_TOP_STORIES, "https://hacker-news.firebaseio.com/v0/topstories.json");
    assert_eq!(HN_URL_ITEM, "https://hacker-news.firebaseio.com/v0/item/");
}

#[test]
fn decode_reads_a_json_list() {
    assert_eq!(decode_top_stories(b"[3,1,2]"), Ok(vec![3, 1, 2]));
    assert_eq!(decode_top_stories(b" [ 8863 ,\n 121003 ] "), Ok(vec![8863, 121003]));
    assert_eq!(decode_top_stories(b"[]"), Ok(Vec::new()));
    assert_eq!(
        decode_top_stories(b"[18446744073709551615]"),
        Ok(vec![u64::MAX])
    );
}

#[test]
fn decode_refuses_what_is_no_list_of_ids() {
    for body in [
        &b""[..],
        b"[1,2",
        b"[1,2] x",
        b"{\"a\":1}",
        b"[1,-2]",
        b"[1.5]",
        b"[\"1\"]",
        b"[18446744073709551616]",
        b"null",
        b"42",
    ] {
        assert_eq!(decode_top_stories(body), Err(FetchError::Decode));
    }
}

#[test]
fn decode_refuses_what_is_not_utf8() {
    assert_eq!(decode_top_stories(&[0xff, 0xfe]), Err(FetchError::Decode));
    assert_eq!(decode_top_stories(&[b'[', b'1', b']', 0xc3]), Err(FetchError::Decode));
}

#[test]
fn update_replaces_the_list_in_returned_order() {
    let mut top = TopList::new();
    assert_eq!(update_top_stories(&mut top, Ok(b"[3,1,2]")), Ok(()));
    assert_eq!(top.snapshot(), vec![3, 1, 2]);
}

#[test]
fn update_truncates_one_hundred_ids_to_the_first_sixty() {
    let ids: Vec<u64> = (1..=100).rev().collect();
    let body = json_list(&ids);
    let mut top = TopList::new();
    assert_eq!(update_top_stories(&mut top, Ok(body.as_bytes())), Ok(()));
    assert_eq!(top.len(), 60);
    assert_eq!(top.snapshot(), ids[..60].to_vec());
}

#[test]
fn update_tracks_a_short_list_as_it_is() {
    let mut top = TopList::new();
    top.replace((0..60).collect());
    assert_eq!(update_top_stories(&mut top, Ok(b"[5,6]")), Ok(()));
    assert_eq!(top.snapshot(), vec![5, 6]);
}

#[test]
fn update_keeps_the_list_on_each_kind_of_failure() {
    let mut top = TopList::new();
    top.replace(vec![3, 1, 2]);
    assert_eq!(
        update_top_stories(&mut top, Err(FetchError::Timeout)),
        Err(FetchError::Timeout)
    );
    assert_eq!(top.snapshot(), vec![3, 1, 2]);
    assert_eq!(
        update_top_stories(&mut top, Err(FetchError::Transport)),
        Err(FetchError::Transport)
    );
    assert_eq!(top.snapshot(), vec![3, 1, 2]);
    assert_eq!(
        update_top_stories(&mut top, Err(FetchError::Decode)),
        Err(FetchError::Decode)
    );
    assert_eq!(top.snapshot(), vec![3, 1, 2]);
    assert_eq!(
        update_top_stories(&mut top, Ok(b"not json")),
        Err(FetchError::Decode)
    );
    assert_eq!(top.snapshot(), vec![3, 1, 2]);
}

#[test]
fn apply_takes_a_decoded_list() {
    let mut top = TopList::new();
    assert_eq!(apply_top_stories(&mut top, Ok(vec![4, 5])), Ok(()));
    assert_eq!(top.snapshot(), vec![4, 5]);
    assert_eq!(
        apply_top_stories(&mut top, Err(FetchError::Transport)),
        Err(FetchError::Transport)
    );
    assert_eq!(top.snapshot(), vec![4, 5]);
}

#[test]
fn plan_lists_missing_ids_in_rank_order() {
    let mut top = TopList::new();
    top.replace(vec![5, 3, 9, 1]);
    let mut cache = Cache::new();
    cache.insert_if_absent(3, story(3));
    assert_eq!(update_item_cache(&top, &cache), vec![5, 9, 1]);
    cache.insert_if_absent(5, story(5));
    cache.insert_if_absent(9, story(9));
    cache.insert_if_absent(1, story(1));
    assert!(update_item_cache(&top, &cache).is_empty());
}

#[test]
fn plan_counts_hidden_entries_as_present() {
    let mut top = TopList::new();
    top.replace(vec![1, 2]);
    let mut cache = Cache::new();
    cache.insert_if_absent(1, story(1));
    cache.mark_hidden(1);
    assert_eq!(update_item_cache(&top, &cache), vec![2]);
}

#[test]
fn plan_is_capped_at_sixty() {
    let ranked: Vec<u64> = (0..150).collect();
    let mut cache = Cache::new();
    cache.insert_if_absent(0, story(0));
    cache.insert_if_absent(70, story(70));
    let plan = plan_backfill(&ranked, &cache);
    assert_eq!(plan.len(), 60);
    assert_eq!(plan, (1..=60).collect::<Vec<u64>>());
}

#[test]
fn plan_of_exactly_sixty_missing_ids_is_whole() {
    let ranked: Vec<u64> = (0..60).collect();
    let plan = plan_backfill(&ranked, &Cache::new());
    assert_eq!(plan, ranked);
}

#[test]
fn backfill_reaches_every_id_in_enough_cycles() {
    let ranked: Vec<u64> = (0..150).map(|i| 1000 + 7 * i).collect();
    let mut cache = Cache::new();
    let mut cycles = 0;
    for _ in 0..3 {
        let plan = plan_backfill(&ranked, &cache);
        for id in plan {
            assert!(receive_item(&mut cache, id, Ok(story(id))));
        }
        cycles += 1;
    }
    assert_eq!(cycles, (ranked.len() + 59) / 60);
    assert!(ranked.iter().all(|id| cache.contains(*id)));
    assert!(plan_backfill(&ranked, &cache).is_empty());
}

#[test]
fn two_cycles_are_not_enough_for_one_hundred_and_fifty() {
    let ranked: Vec<u64> = (0..150).collect();
    let mut cache = Cache::new();
    for _ in 0..2 {
        for id in plan_backfill(&ranked, &cache) {
            receive_item(&mut cache, id, Ok(story(id)));
        }
    }
    assert_eq!(cache.len(), 120);
    assert_eq!(plan_backfill(&ranked, &cache), (120..150).collect::<Vec<u64>>());
}

#[test]
fn failed_rank_fetches_keep_the_list_and_backfill_goes_on() {
    let mut hn = HackerNews::default();
    assert_eq!(hn.refresh(Ok(b"[3,1,2]")), vec![3, 1, 2]);
    assert!(hn.receive_item(3, Ok(story(3))));
    for error in [FetchError::Timeout, FetchError::Transport, FetchError::Decode] {
        let plan = hn.refresh(Err(error));
        assert_eq!(hn.top().snapshot(), vec![3, 1, 2]);
        assert_eq!(plan, vec![1, 2]);
    }
    let plan = hn.refresh(Ok(b"garbage"));
    assert_eq!(hn.top().snapshot(), vec![3, 1, 2]);
    assert_eq!(plan, vec![1, 2]);
    assert!(hn.receive_item(1, Ok(story(1))));
    assert_eq!(hn.refresh(Err(FetchError::Timeout)), vec![2]);
}

#[test]
fn refresh_on_pieces_plans_from_the_new_list() {
    let mut top = TopList::new();
    top.replace(vec![1, 2]);
    let mut cache = Cache::new();
    cache.insert_if_absent(1, story(1));
    cache.insert_if_absent(8, story(8));
    assert_eq!(refresh(&mut top, &cache, Ok(b"[9,8,7]")), vec![9, 7]);
    assert_eq!(top.snapshot(), vec![9, 8, 7]);
}

#[test]
fn timed_out_item_is_absent_until_a_later_fetch_succeeds() {
    let mut hn = HackerNews::default();
    assert_eq!(hn.refresh(Ok(b"[42]")), vec![42]);
    assert!(!hn.receive_item(42, Err(FetchError::Timeout)));
    assert!(!hn.cache().contains(42));
    assert_eq!(hn.cache().len(), 0);
    assert_eq!(hn.refresh(Ok(b"[42]")), vec![42]);
    assert!(hn.receive_item(42, Ok(story(42))));
    assert!(hn.cache().contains(42));
    assert_eq!(hn.cache().get(42).unwrap().title(), "story 42");
    assert!(hn.refresh(Ok(b"[42]")).is_empty());
}

#[test]
fn failed_item_fetch_of_each_kind_changes_nothing() {
    let mut cache = Cache::new();
    cache.insert_if_absent(1, story(1));
    for error in [FetchError::Timeout, FetchError::Transport, FetchError::Decode] {
        assert!(!receive_item(&mut cache, 2, Err(error)));
        assert!(!receive_item(&mut cache, 1, Err(error)));
    }
    assert_eq!(cache.len(), 1);
    assert!(!cache.contains(2));
}

#[test]
fn duplicate_fetches_of_one_id_store_the_first_whole() {
    let first = Item::new(
        9,
        "ann".to_string(),
        1,
        "story".to_string(),
        Some("first".to_string()),
        None,
        Some("http://first.example".to_string()),
        None,
        None,
        None,
    );
    let second = Item::new(
        9,
        "bob".to_string(),
        2,
        "story".to_string(),
        Some("second".to_string()),
        None,
        None,
        None,
        None,
        None,
    );
    let mut cache = Cache::new();
    assert!(receive_item(&mut cache, 9, Ok(first)));
    assert!(!receive_item(&mut cache, 9, Ok(second)));
    assert_eq!(cache.len(), 1);
    let kept = cache.get(9).unwrap();
    assert_eq!(kept.title(), "first");
    assert_eq!(kept.url(), "http://first.example");
}

#[test]
fn item_fetched_after_its_id_left_the_list_is_still_stored() {
    let mut hn = HackerNews::default();
    assert_eq!(hn.refresh(Ok(b"[1,2]")), vec![1, 2]);
    assert_eq!(hn.refresh(Ok(b"[2]")), vec![2]);
    assert!(hn.receive_item(1, Ok(story(1))));
    assert!(hn.cache().contains(1));
    assert!(hn.visible_sequence().is_empty());
    assert!(hn.receive_item(2, Ok(story(2))));
    assert!(hn.refresh(Ok(b"[1,2]")).is_empty());
    let shown: Vec<u64> = hn.visible_sequence().iter().map(|i| i.id()).collect();
    assert_eq!(shown, vec![1, 2]);
}

#[test]
fn received_item_carries_no_local_mark() {
    let mut hn = HackerNews::default();
    hn.refresh(Ok(b"[1,2]"));
    hn.receive_item(1, Ok(story(1)));
    let out = hn.visible_sequence();
    assert!(out[0].is_seen());
    assert!(hn.receive_item(2, Ok(out[0].clone())));
    let stored = hn.cache().get(2).unwrap();
    assert!(!stored.is_seen());
    assert!(!stored.is_hidden());
}

#[test]
fn item_uri_is_built_from_the_id() {
    assert_eq!(item_uri(8863), "https://hacker-news.firebaseio.com/v0/item/8863.json");
    assert_eq!(item_uri(0), "https://hacker-news.firebaseio.com/v0/item/0.json");
    assert_eq!(
        item_uri(u64::MAX),
        "https://hacker-news.firebaseio.com/v0/item/18446744073709551615.json"
    );
}

#[test]
fn tick_fires_after_more_than_ten_seconds() {
    let mut clock = Refresher::new();
    assert!(!clock.tick(0));
    assert!(!clock.tick(10));
    assert!(clock.tick(11));
    assert!(!clock.tick(11));
    assert!(!clock.tick(21));
    assert!(clock.tick(22));
    assert!(!clock.tick(5));
    assert!(clock.tick(1_700_000_000));
    assert!(!clock.tick(1_700_000_010));
    assert!(clock.tick(1_700_000_011));
}

#[test]
fn tick_at_the_end_of_time_does_not_fire() {
    let mut clock = Refresher::new();
    assert!(clock.tick(i64::MAX - 5));
    assert!(!clock.tick(i64::MAX));
    let mut early = Refresher::new();
    assert!(!early.tick(i64::MIN));
    assert!(!early.tick(-1));
}

#[test]
fn poll_fires_once_on_the_system_clock() {
    let mut clock = Refresher::new();
    assert!(clock.poll());
    assert!(!clock.poll());
}
