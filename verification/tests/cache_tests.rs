use md_tmpl_core::cache::{check_hash, check_modified, eviction_count, fnv1a_hash, hash_source, oldest_entries, AfterRead, AfterStat, EntryStamp};

#[test]
fn fnv1a_known_values() {
    assert_eq!(hash_source(""), 0xcbf29ce484222325);
    assert_eq!(hash_source("a"), 0xaf63dc4c8601ec8c);
    assert_eq!(hash_source("foobar"), 0x85944171f73967e8);
    assert_eq!(fnv1a_hash(b"a"), hash_source("a"));
}

#[test]
fn same_source_same_hash() {
    let a = hash_source("---\nparams: []\n---\nHi");
    let b = hash_source("---\nparams: []\n---\nHi");
    let c = hash_source("---\nparams: []\n---\nHo");
    assert_eq!(a, b);
    assert_ne!(a, c);
}

#[test]
fn reuse_decisions() {
    let e = EntryStamp { modified: 10, source_hash: 7 };
    assert_eq!(check_modified(Some(e), 10), AfterStat::UseCached);
    assert_eq!(check_modified(Some(e), 11), AfterStat::ReadSource);
    assert_eq!(check_modified(None, 10), AfterStat::ReadSource);
    assert_eq!(check_hash(Some(e), 7), AfterRead::RefreshCached);
    assert_eq!(check_hash(Some(e), 8), AfterRead::Compile);
    assert_eq!(check_hash(None, 7), AfterRead::Compile);
}

#[test]
fn eviction_counts() {
    assert_eq!(eviction_count(10, None), 0);
    assert_eq!(eviction_count(3, Some(4)), 0);
    assert_eq!(eviction_count(4, Some(4)), 1);
    assert_eq!(eviction_count(10, Some(4)), 7);
    assert_eq!(eviction_count(1, Some(1)), 0);
    assert_eq!(eviction_count(2, Some(1)), 1);
    assert_eq!(eviction_count(5, Some(0)), 4);
}

#[test]
fn eviction_bounds_cache_size() {
    // With a limit of at least two, evicting before each insert keeps the
    // cache at or below the limit.
    for max in 2usize..20 {
        let mut len = 0usize;
        for _ in 0..50 {
            len -= eviction_count(len, Some(max));
            len += 1;
            assert!(len <= max);
        }
    }
}

#[test]
fn oldest_entries_picks_least_recent() {
    let times = vec![50, 10, 40, 20, 30];
    let mut picked = oldest_entries(&times, 2);
    picked.sort();
    assert_eq!(picked, vec![1, 3]);
    assert_eq!(oldest_entries(&times, 0), Vec::<usize>::new());
    let mut all = oldest_entries(&times, 5);
    all.sort();
    assert_eq!(all, vec![0, 1, 2, 3, 4]);
}
