use rhq::{CacheData, Repository};

fn repo(path: &str) -> Repository {
    Repository::new(path.to_string(), None)
}

fn paths(d: &CacheData) -> Vec<String> {
    let mut v: Vec<String> = d.iter().map(|r| r.path.clone()).collect();
    v.sort();
    v
}

#[test]
fn new_data_is_empty() {
    let d = CacheData::new();
    assert_eq!(d.len(), 0);
    assert_eq!(d.iter().count(), 0);
}

#[test]
fn insert_equal_twice_keeps_one() {
    let mut d = CacheData::new();
    d.insert_or_update(repo("/src/a"));
    d.insert_or_update(repo("/src/a"));
    assert_eq!(d.len(), 1);
    assert!(d.contains(&repo("/src/a")));
    assert_eq!(d.as_slice()[0], repo("/src/a"));
}

#[test]
fn insert_distinct_keeps_both() {
    let mut d = CacheData::new();
    d.insert_or_update(repo("/src/a"));
    d.insert_or_update(Repository::new("/src/a".to_string(), Some("https://example.com/a.git".to_string())));
    d.insert_or_update(repo("/src/b"));
    assert_eq!(d.len(), 3);
}

#[test]
fn remove_if_prunes_selected() {
    let mut d = CacheData::new();
    d.insert_or_update(repo("A"));
    d.insert_or_update(repo("B"));
    d.insert_or_update(repo("C"));
    let removed = d.remove_if(|r: &Repository| r.path == "B");
    assert_eq!(removed, 1);
    assert_eq!(paths(&d), vec!["A".to_string(), "C".to_string()]);
}

#[test]
fn remove_if_nothing_selected() {
    let mut d = CacheData::new();
    d.insert_or_update(repo("A"));
    assert_eq!(d.remove_if(|_: &Repository| false), 0);
    assert_eq!(d.len(), 1);
}

#[test]
fn remove_if_everything_selected() {
    let mut d = CacheData::new();
    d.insert_or_update(repo("A"));
    d.insert_or_update(repo("B"));
    assert_eq!(d.remove_if(|_: &Repository| true), 2);
    assert_eq!(d.len(), 0);
}

#[test]
fn legacy_list_is_deduplicated() {
    let d = CacheData::from_records(vec![repo("A"), repo("B"), repo("A")]);
    assert_eq!(d.len(), 2);
    assert_eq!(paths(&d), vec!["A".to_string(), "B".to_string()]);
}

#[test]
fn records_round_trip_through_list() {
    let mut d = CacheData::new();
    d.insert_or_update(repo("A"));
    d.insert_or_update(repo("B"));
    let back = CacheData::from_records(d.to_records());
    assert_eq!(paths(&back), paths(&d));
    assert_eq!(back.len(), 2);
}

#[test]
fn record_equality_looks_at_remote() {
    let a = Repository::new("p".to_string(), Some("r".to_string()));
    let b = Repository::new("p".to_string(), Some("r".to_string()));
    let c = Repository::new("p".to_string(), None);
    assert!(a.same_as(&b));
    assert!(!a.same_as(&c));
    assert_eq!(a.duplicate(), a);
}

#[test]
fn records_come_out_in_order() {
    let mut d = CacheData::new();
    d.insert_or_update(repo("/src/b"));
    d.insert_or_update(repo("/src/c"));
    d.insert_or_update(repo("/src/a"));
    d.insert_or_update(Repository::new("/src/a".to_string(), Some("git@host:a".to_string())));
    let seen: Vec<(String, Option<String>)> = d.iter().map(|r| (r.path.clone(), r.remote.clone())).collect();
    assert_eq!(
        seen,
        vec![
            ("/src/a".to_string(), None),
            ("/src/a".to_string(), Some("git@host:a".to_string())),
            ("/src/b".to_string(), None),
            ("/src/c".to_string(), None),
        ]
    );
}

#[test]
fn order_is_by_character_then_length() {
    let d = CacheData::from_records(vec![repo("ab"), repo("a"), repo("B"), repo("あ")]);
    let seen: Vec<String> = d.iter().map(|r| r.path.clone()).collect();
    assert_eq!(seen, vec!["B".to_string(), "a".to_string(), "ab".to_string(), "あ".to_string()]);
}
