use async_language_server::server::stamp::{stamp_unchanged, FileStamp};
use async_language_server::server::walk_cache::WalkCache;
use async_language_server::server::ServerOptions;

fn stamp_at(modified_secs: u64, len: u64) -> FileStamp {
    FileStamp { modified_secs, modified_nanos: 250, len }
}

#[test]
fn ignore_configuration_defaults_to_inert() {
    let options = ServerOptions::default();
    assert!(options.ignore_filenames.is_empty());
    assert!(options.global_ignore_file.is_none());
}

#[test]
fn stamp_gate_is_conservative() {
    let now: u64 = 1_700_000_000;
    let stamp = stamp_at(now, 12);
    assert!(stamp_unchanged(Some(stamp), Some(stamp)));
    assert!(!stamp_unchanged(Some(stamp), Some(stamp_at(now + 1, 12))));
    assert!(!stamp_unchanged(Some(stamp), Some(stamp_at(now, 13))));
    assert!(!stamp_unchanged(None, Some(stamp)));
    assert!(!stamp_unchanged(Some(stamp), None));
    assert!(!stamp_unchanged(None, None));
}

#[test]
fn stamp_gate_compares_sub_second_time() {
    let a = FileStamp { modified_secs: 10, modified_nanos: 1, len: 4 };
    let b = FileStamp { modified_secs: 10, modified_nanos: 2, len: 4 };
    assert!(!stamp_unchanged(Some(a), Some(b)));
    assert!(stamp_unchanged(Some(b), Some(b)));
}

#[test]
fn invalidation_flips_serving_to_walking_and_back() {
    let entry = || ("/tmp/walk-cache-flip.test".to_string(), "flip".to_string());

    let mut cache = WalkCache::new();
    assert!(cache.get_valid().is_none(), "no entries: the next refresh walks");

    cache.store(vec![entry()]);
    assert_eq!(
        cache.get_valid().map(|entries| entries.len()),
        Some(1),
        "no event between refreshes: the cache serves",
    );

    cache.invalidate();
    assert!(cache.get_valid().is_none(), "invalidation forces the next refresh to walk");

    cache.store(vec![entry()]);
    assert_eq!(
        cache.get_valid().map(|entries| entries.len()),
        Some(1),
        "the re-walk's store serves again",
    );
    cache.clear();
    assert!(cache.get_valid().is_none(), "the folders-changed clear drops the list entirely");
}

#[test]
fn walk_cache_serves_exactly_what_was_stored() {
    let mut cache = WalkCache::new();
    cache.store(vec![3u32, 1, 2]);
    assert_eq!(cache.get_valid(), Some(vec![3, 1, 2]));
    assert_eq!(cache.get_valid(), Some(vec![3, 1, 2]), "serving does not consume the list");
    cache.invalidate();
    cache.invalidate();
    assert_eq!(cache.get_valid(), None);
    cache.store(Vec::new());
    assert_eq!(cache.get_valid(), Some(Vec::new()), "an empty walk is still a walk");
}

#[test]
fn walk_cache_serves_between_invalidations_and_refreshes_on_them() {
    let a = "file:///ws/a.test".to_string();
    let b = "file:///ws/b.test".to_string();
    let mut cache: WalkCache<String> = WalkCache::new();

    // The first refresh walks and records what it found.
    assert_eq!(cache.served(true), None);
    cache.record(true, vec![a.clone()]);

    // A file created since stays invisible: the stored walk serves.
    assert_eq!(cache.served(true), Some(vec![a.clone()]));

    // The watcher's event on the created file makes the next refresh walk.
    cache.note_file_event(&b, true, &[]);
    assert_eq!(cache.served(true), None);
    cache.record(true, vec![a.clone(), b.clone()]);
    assert_eq!(cache.served(true), Some(vec![a.clone(), b.clone()]));

    // A change to a file that stays where it is keeps the walk current.
    cache.note_file_event(&a, false, &[]);
    assert_eq!(cache.served(true), Some(vec![a, b]));
}

#[test]
fn without_watchers_every_poll_walks_and_sees_new_files() {
    let mut cache: WalkCache<String> = WalkCache::new();
    cache.record(false, vec!["file:///ws/a.test".to_string()]);
    assert_eq!(cache.served(false), None, "no registration: nothing is stored");
    assert_eq!(cache.served(true), None);
}

#[test]
fn ignore_file_events_invalidate_the_walk_cache_not_documents() {
    let names = vec![".mylspignore".to_string()];
    let mut cache: WalkCache<String> = WalkCache::new();

    cache.record(true, vec!["file:///ws/a.test".to_string()]);
    cache.note_file_event("file:///ws/.mylspignore", false, &names);
    assert_eq!(cache.served(true), None, "a changed configured ignore file stales the walk");

    cache.record(true, vec!["file:///ws/a.test".to_string()]);
    cache.note_file_event("file:///ws/nested/.gitignore", false, &names);
    assert_eq!(cache.served(true), None, "a changed .gitignore stales the walk");

    cache.record(true, vec!["file:///ws/a.test".to_string()]);
    cache.note_file_event("file:///ws/.ignore", false, &[]);
    assert_eq!(cache.served(true), None, "a changed .ignore stales the walk");

    cache.record(true, vec!["file:///ws/a.test".to_string()]);
    cache.note_file_event("file:///ws/x.mylspignore", false, &names);
    cache.note_file_event("file:///ws/.mylspignore/inner.test", false, &names);
    assert!(cache.served(true).is_some(), "other names leave the walk current");
}
