use rhq::{
    Cache, CacheData, CacheError, OpenAction, OpenEvent, OpenRequest, Opening, Repository,
    SharedCache, Timestamp,
};
use std::cell::RefCell;

fn repo(path: &str) -> Repository {
    Repository::new(path.to_string(), None)
}

fn stamp(secs: i64) -> Timestamp {
    Timestamp::from_parts(secs, 0, 0).unwrap()
}

/// Drives the protocol with the given answers and returns how it ended.
fn run(answers: Vec<OpenEvent>) -> (Vec<OpenRequest>, OpenAction) {
    let mut state = Opening::Start;
    let mut asked = Vec::new();
    for ev in answers {
        assert!(state.accepts(&ev));
        match state.advance(ev) {
            OpenAction::Wait(next, req) => {
                asked.push(req);
                state = next;
            }
            done => return (asked, done),
        }
    }
    panic!("protocol did not finish");
}

fn stored(records: &[&str]) -> Cache {
    let list = records.iter().map(|p| repo(p)).collect();
    Cache::from_parts(stamp(100), Some(CacheData::from_records(list)))
}

#[test]
fn existing_file_is_read_then_locked_exclusively() {
    let (asked, end) = run(vec![
        OpenEvent::PathChecked(true),
        OpenEvent::LockGranted,
        OpenEvent::Parsed(stored(&["A", "B"])),
        OpenEvent::LockGranted,
    ]);
    assert_eq!(
        asked,
        vec![OpenRequest::LockShared, OpenRequest::ReadContents, OpenRequest::RelockExclusive]
    );
    match end {
        OpenAction::Done(c) => {
            assert_eq!(c.get_opt().unwrap().len(), 2);
            assert_eq!(c.timestamp(), stamp(100));
        }
        other => panic!("unexpected {:?}", other),
    }
}

#[test]
fn absent_file_then_materialize() {
    let (asked, end) = run(vec![OpenEvent::PathChecked(false), OpenEvent::LockGranted]);
    assert_eq!(asked, vec![OpenRequest::LockExclusiveCreate]);
    let cache = match end {
        OpenAction::Done(c) => c,
        other => panic!("unexpected {:?}", other),
    };
    let mut session = SharedCache::from_locked(cache, ());
    assert!(session.get_opt().is_none());
    assert_eq!(session.get_mut().len(), 0);
    assert!(session.get_opt().is_some());
    assert_eq!(session.get_opt().unwrap().len(), 0);
}

#[test]
fn corrupt_file_is_rejected() {
    let (asked, end) = run(vec![
        OpenEvent::PathChecked(true),
        OpenEvent::LockGranted,
        OpenEvent::Garbled,
    ]);
    assert_eq!(asked, vec![OpenRequest::LockShared, OpenRequest::ReadContents]);
    assert!(matches!(end, OpenAction::Fail(CacheError::CorruptCache)));
}

#[test]
fn refused_lock_is_reported() {
    let (_, end) = run(vec![OpenEvent::PathChecked(false), OpenEvent::LockRefused]);
    assert!(matches!(end, OpenAction::Fail(CacheError::LockUnavailable)));
    let (_, end) = run(vec![
        OpenEvent::PathChecked(true),
        OpenEvent::LockGranted,
        OpenEvent::Parsed(stored(&["A"])),
        OpenEvent::LockRefused,
    ]);
    assert!(matches!(end, OpenAction::Fail(CacheError::LockUnavailable)));
}

#[test]
fn unexpected_event_is_not_accepted() {
    assert!(!Opening::Start.accepts(&OpenEvent::LockGranted));
    assert!(!Opening::Reading.accepts(&OpenEvent::LockGranted));
    assert!(Opening::Reading.accepts(&OpenEvent::Garbled));
}

/// A stand-in for the cache file: the records last written, as paths.
type File = RefCell<Option<Vec<String>>>;

fn write_paths(c: &Cache, file: &File) -> Result<(), ()> {
    let mut paths: Vec<String> = match c.get_opt() {
        Some(d) => d.iter().map(|r| r.path.clone()).collect(),
        None => Vec::new(),
    };
    paths.sort();
    *file.borrow_mut() = Some(paths);
    Ok(())
}

#[test]
fn persist_without_change_keeps_records() {
    let mut session = SharedCache::from_locked(stored(&["A", "B"]), File::new(None));
    assert_eq!(session.dump(write_paths), Ok(()));
    assert_eq!(
        session.lock().borrow().clone(),
        Some(vec!["A".to_string(), "B".to_string()])
    );
    assert_ne!(session.cache().timestamp(), stamp(100));
}

#[test]
fn persisted_records_read_back_the_same() {
    let mut session = SharedCache::from_locked(stored(&["A"]), File::new(None));
    session.get_mut().insert_or_update(repo("C"));
    assert_eq!(session.dump(write_paths), Ok(()));
    let written = session.lock().borrow().clone().unwrap();
    let reread = CacheData::from_records(written.iter().map(|p| repo(p)).collect());
    assert_eq!(reread.len(), 2);
    assert!(reread.contains(&repo("A")));
    assert!(reread.contains(&repo("C")));
}

#[test]
fn mutation_without_persist_writes_nothing() {
    let mut session = SharedCache::from_locked(stored(&["A"]), File::new(None));
    session.get_mut().insert_or_update(repo("B"));
    assert_eq!(session.get_opt().unwrap().len(), 2);
    assert_eq!(*session.lock().borrow(), None);
}

#[test]
fn failed_persist_keeps_timestamp() {
    let mut session = SharedCache::from_locked(stored(&["A"]), ());
    let r = session.dump(|_: &Cache, _: &()| Err::<(), String>("disk full".to_string()));
    assert_eq!(r, Err(CacheError::PersistError));
    assert_eq!(session.cache().timestamp(), stamp(100));
    assert_eq!(session.get_opt().unwrap().len(), 1);
}

#[test]
fn timestamp_parts_are_checked() {
    assert!(Timestamp::from_parts(0, 0, 0).is_some());
    assert!(Timestamp::from_parts(0, 2_000_000_000, 0).is_none());
    assert!(Timestamp::from_parts(0, 0, 86_400).is_none());
    assert!(Timestamp::from_parts(0, 0, -86_399).is_some());
}

#[test]
fn now_is_in_range() {
    let t = Timestamp::now();
    assert!(t.nanos <= 1_999_999_999);
    assert!(t.offset > -86_400 && t.offset < 86_400);
    assert!(t.secs > 1_500_000_000);
}

#[test]
fn fresh_cache_has_no_records() {
    let c = Cache::fresh();
    assert!(c.get_opt().is_none());
}
