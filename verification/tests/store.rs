use rn_run::store::{
    display_name_of, has_log_extension, latest_of, sort_entries_desc, LogEntry, LogStore,
    MAX_LOGS,
};

fn entry(path: &str, mtime: u64) -> LogEntry {
    LogEntry {
        path: path.to_string(),
        display_name: display_name_of(path),
        size_bytes: 0,
        modified_timestamp: mtime,
    }
}

#[test]
fn list_orders_newest_first() {
    let entries = vec![entry("t1.log", 100), entry("t2.log", 200), entry("t3.log", 300)];
    let sorted = sort_entries_desc(entries);
    let paths: Vec<&str> = sorted.iter().map(|e| e.path.as_str()).collect();
    assert_eq!(paths, vec!["t3.log", "t2.log", "t1.log"]);
}

#[test]
fn sort_is_a_permutation() {
    let entries = vec![entry("a.log", 5), entry("b.log", 9), entry("c.log", 1), entry("d.log", 7)];
    let sorted = sort_entries_desc(entries);
    let mut paths: Vec<&str> = sorted.iter().map(|e| e.path.as_str()).collect();
    paths.sort();
    assert_eq!(paths, vec!["a.log", "b.log", "c.log", "d.log"]);
    for w in sorted.windows(2) {
        assert!(w[0].modified_timestamp >= w[1].modified_timestamp);
    }
}

#[test]
fn rotation_deletes_only_beyond_the_cap() {
    let store = LogStore::new("/logs".to_string(), 10);
    let mut entries = Vec::new();
    for k in 0..13u64 {
        entries.push(entry(&format!("f{}.log", k), 1000 + k));
    }
    let plan = store.rotation_plan(entries);
    assert_eq!(plan.keep.len(), 10);
    assert_eq!(plan.delete.len(), 3);
    for kept in &plan.keep {
        for doomed in &plan.delete {
            assert!(kept.modified_timestamp >= doomed.modified_timestamp);
        }
    }
    let doomed: Vec<&str> = plan.delete.iter().map(|e| e.path.as_str()).collect();
    assert_eq!(doomed, vec!["f2.log", "f1.log", "f0.log"]);
}

#[test]
fn rotation_below_cap_deletes_nothing() {
    let store = LogStore::new("/logs".to_string(), 10);
    let entries = vec![entry("a.log", 1), entry("b.log", 2)];
    let plan = store.rotation_plan(entries);
    assert_eq!(plan.keep.len(), 2);
    assert!(plan.delete.is_empty());
}

#[test]
fn rotation_is_idempotent() {
    let store = LogStore::new("/logs".to_string(), 10);
    let mut entries = Vec::new();
    for k in 0..15u64 {
        entries.push(entry(&format!("f{}.log", k), 2000 + k));
    }
    let first = store.rotation_plan(entries);
    let kept_once: Vec<String> = first.keep.iter().map(|e| e.path.clone()).collect();
    let second = store.rotation_plan(first.keep);
    assert!(second.delete.is_empty());
    let kept_twice: Vec<String> = second.keep.iter().map(|e| e.path.clone()).collect();
    assert_eq!(kept_once, kept_twice);
}

#[test]
fn repeated_opens_keep_the_store_bounded() {
    // One session open = one rotation pass, then one new file, newer
    // than everything before it.
    let store = LogStore::new("/logs".to_string(), MAX_LOGS);
    let mut on_disk: Vec<LogEntry> = Vec::new();
    for n in 0..25u64 {
        let plan = store.rotation_plan(on_disk);
        assert!(plan.keep.len() <= MAX_LOGS);
        on_disk = plan.keep;
        on_disk.push(entry(&format!("run{}.log", n), 10_000 + n));
        assert!(on_disk.len() <= MAX_LOGS + 1);
    }
    // After a further rotation pass the store holds exactly the cap,
    // and they are the most recently created files.
    let plan = store.rotation_plan(on_disk);
    assert_eq!(plan.keep.len(), MAX_LOGS);
    let mut kept: Vec<String> = plan.keep.iter().map(|e| e.path.clone()).collect();
    kept.sort();
    let mut expected: Vec<String> = (15..25).map(|n| format!("run{}.log", n)).collect();
    expected.sort();
    assert_eq!(kept, expected);
}

#[test]
fn latest_picks_the_most_recent() {
    let entries = vec![entry("a.log", 10), entry("b.log", 30), entry("c.log", 20)];
    let idx = latest_of(&entries).unwrap();
    assert_eq!(entries[idx].path, "b.log");
}

#[test]
fn latest_of_empty_store_is_none() {
    let entries: Vec<LogEntry> = Vec::new();
    assert!(latest_of(&entries).is_none());
}

#[test]
fn log_extension_check() {
    assert!(has_log_extension("rn-run-ios-2024-01-01_00-00-00.log"));
    assert!(has_log_extension(".log"));
    assert!(!has_log_extension("log"));
    assert!(!has_log_extension("notes.txt"));
    assert!(!has_log_extension("a.log.bak"));
}

#[test]
fn display_name_is_the_file_name() {
    assert_eq!(display_name_of("/home/me/.rn-run/logs/a.log"), "a.log");
    assert_eq!(display_name_of("a.log"), "a.log");
    assert_eq!(display_name_of("/ends/with/slash/"), "");
}

#[test]
fn allocate_path_has_the_fixed_shape() {
    let store = LogStore::new("/home/me/.rn-run/logs".to_string(), MAX_LOGS);
    let path = store.allocate_path("ios", "2024-02-03_04-05-06");
    assert_eq!(path, "/home/me/.rn-run/logs/rn-run-ios-2024-02-03_04-05-06.log");
}

#[test]
fn default_dir_sits_under_home() {
    assert_eq!(LogStore::default_dir("/home/me"), "/home/me/.rn-run/logs");
}

#[test]
fn retention_cap_is_ten() {
    assert_eq!(MAX_LOGS, 10);
}
