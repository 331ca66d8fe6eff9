use hn::top_list::TOP_LIMIT;
use hn::{Cache, Item, TopList};

fn story(id: u64, title: &str) -> Item {
    Item::new(
        id,
        "author".to_string(),
        1_500_000_000,
        "story".to_string(),
        Some(title.to_string()),
        None,
        None,
        None,
        None,
        None,
    )
}

#[test]
fn top_list_starts_empty() {
    let top = TopList::new();
    assert_eq!(top.len(), 0);
    assert_eq!(top.snapshot(), Vec::<u64>::new());
    assert_eq!(top.get(0), None);
    assert_eq!(TopList::default().len(), 0);
}

#[test]
fn replace_swaps_the_whole_list() {
    let mut top = TopList::new();
    top.replace(vec![3, 1, 2]);
    assert_eq!(top.snapshot(), vec![3, 1, 2]);
    top.replace(vec![9]);
    assert_eq!(top.snapshot(), vec![9]);
    assert_eq!(top.len(), 1);
    top.replace(Vec::new());
    assert_eq!(top.len(), 0);
}

#[test]
fn replace_keeps_the_first_sixty() {
    let ids: Vec<u64> = (1000..1100).collect();
    let mut top = TopList::new();
    top.replace(ids.clone());
    assert_eq!(top.len(), 60);
    assert_eq!(top.snapshot(), ids[..60].to_vec());
    assert_eq!(TOP_LIMIT, 60);
}

#[test]
fn replace_keeps_a_list_of_exactly_sixty() {
    let ids: Vec<u64> = (0..60).collect();
    let mut top = TopList::new();
    top.replace(ids.clone());
    assert_eq!(top.snapshot(), ids);
    let longer: Vec<u64> = (0..61).collect();
    top.replace(longer);
    assert_eq!(top.snapshot(), ids);
}

#[test]
fn get_reads_by_rank() {
    let mut top = TopList::new();
    top.replace(vec![30, 10, 20]);
    assert_eq!(top.get(0), Some(30));
    assert_eq!(top.get(2), Some(20));
    assert_eq!(top.get(3), None);
    assert_eq!(top.get(usize::MAX), None);
}

#[test]
fn top_list_clone_is_a_snapshot() {
    let mut top = TopList::new();
    top.replace(vec![1, 2]);
    let copy = top.clone();
    top.replace(vec![3]);
    assert_eq!(copy.snapshot(), vec![1, 2]);
    assert_eq!(top.snapshot(), vec![3]);
}

#[test]
fn cache_starts_empty() {
    let cache = Cache::new();
    assert_eq!(cache.len(), 0);
    assert!(!cache.contains(1));
    assert!(cache.get(1).is_none());
    assert!(!cache.shows(1));
    assert_eq!(Cache::default().len(), 0);
}

#[test]
fn insert_if_absent_stores_once() {
    let mut cache = Cache::new();
    assert!(cache.insert_if_absent(7, story(7, "first")));
    assert!(!cache.insert_if_absent(7, story(7, "second")));
    assert_eq!(cache.len(), 1);
    assert_eq!(cache.get(7).unwrap().title(), "first");
}

#[test]
fn first_insert_wins_in_either_order() {
    let mut a = Cache::new();
    a.insert_if_absent(7, story(7, "one"));
    a.insert_if_absent(7, story(7, "two"));
    let mut b = Cache::new();
    b.insert_if_absent(7, story(7, "two"));
    b.insert_if_absent(7, story(7, "one"));
    assert_eq!(a.get(7).unwrap().title(), "one");
    assert_eq!(b.get(7).unwrap().title(), "two");
    assert_eq!(a.len(), 1);
    assert_eq!(b.len(), 1);
}

#[test]
fn entry_is_kept_under_the_requested_id() {
    let mut cache = Cache::new();
    cache.insert_if_absent(5, story(6, "other"));
    assert!(cache.contains(5));
    assert!(!cache.contains(6));
    assert_eq!(cache.get(5).unwrap().id(), 6);
}

#[test]
fn mark_hidden_hides_one_entry() {
    let mut cache = Cache::new();
    cache.insert_if_absent(1, story(1, "a"));
    cache.insert_if_absent(2, story(2, "b"));
    assert!(cache.shows(1));
    cache.mark_hidden(1);
    assert!(!cache.shows(1));
    assert!(cache.get(1).unwrap().is_hidden());
    assert!(!cache.get(1).unwrap().is_seen());
    assert!(cache.shows(2));
    assert!(!cache.get(2).unwrap().is_hidden());
    assert_eq!(cache.len(), 2);
}

#[test]
fn mark_hidden_twice_is_as_once() {
    let mut once = Cache::new();
    once.insert_if_absent(1, story(1, "a"));
    once.mark_hidden(1);
    let mut twice = Cache::new();
    twice.insert_if_absent(1, story(1, "a"));
    twice.mark_hidden(1);
    twice.mark_hidden(1);
    assert_eq!(once.len(), twice.len());
    assert_eq!(once.get(1).unwrap().is_hidden(), twice.get(1).unwrap().is_hidden());
    assert_eq!(once.get(1).unwrap().is_seen(), twice.get(1).unwrap().is_seen());
    assert_eq!(once.get(1).unwrap().title(), twice.get(1).unwrap().title());
}

#[test]
fn mark_hidden_of_unknown_id_changes_nothing() {
    let mut cache = Cache::new();
    cache.insert_if_absent(1, story(1, "a"));
    cache.mark_hidden(99);
    assert_eq!(cache.len(), 1);
    assert!(!cache.contains(99));
    assert!(cache.shows(1));
}

#[test]
fn hidden_entry_is_not_replaced_by_a_later_insert() {
    let mut cache = Cache::new();
    cache.insert_if_absent(1, story(1, "a"));
    cache.mark_hidden(1);
    assert!(!cache.insert_if_absent(1, story(1, "again")));
    assert!(cache.get(1).unwrap().is_hidden());
    assert_eq!(cache.get(1).unwrap().title(), "a");
}
