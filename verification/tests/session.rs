use rn_run::sanitize::{clean, strip_control_sequences};
use rn_run::session::{file_line, header, highlighted, LogSession};
use rn_run::store::{LogStore, MAX_LOGS};
use rn_run::time::TimeParts;

fn noon(day: u64) -> TimeParts {
    TimeParts { year: 2024, month: 3, day, hour: 12, minute: 0, second: 0 }
}

#[test]
fn header_has_title_timestamp_and_blank_line() {
    let text = header("ios", "2024-03-05 12:00:00");
    let lines: Vec<&str> = text.split('\n').collect();
    assert_eq!(lines[0], "=== rn-run ios build log ===");
    assert_eq!(lines[1], "Started: 2024-03-05 12:00:00");
    assert_eq!(lines[2], "");
}

#[test]
fn open_plan_names_the_allocated_path() {
    let store = LogStore::new("/home/me/.rn-run/logs".to_string(), MAX_LOGS);
    let (session, head) = LogSession::open_plan(&store, "ios", &noon(5));
    assert_eq!(session.path, "/home/me/.rn-run/logs/rn-run-ios-2024-03-05_12-00-00.log");
    assert_eq!(session.path, store.allocate_path("ios", "2024-03-05_12-00-00"));
    assert!(head.starts_with("=== rn-run ios build log ===\n"));
    assert!(head.contains("Started: 2024-03-05 12:00:00\n"));
    assert!(head.ends_with("\n\n"));
}

#[test]
fn open_plan_tags_the_platform() {
    let store = LogStore::new("/logs".to_string(), MAX_LOGS);
    let (session, head) = LogSession::open_plan(&store, "android", &noon(6));
    assert_eq!(session.path, "/logs/rn-run-android-2024-03-06_12-00-00.log");
    assert_eq!(head.split('\n').next().unwrap(), "=== rn-run android build log ===");
}

#[test]
fn file_copy_of_a_line_appends_a_newline() {
    assert_eq!(file_line("hello"), "hello\n");
    assert_eq!(file_line(""), "\n");
}

#[test]
fn highlighted_console_copy_wraps_the_plain_text() {
    assert_eq!(highlighted("Build done"), "\x1b[1mBuild done\x1b[0m");
}

#[test]
fn sanitizing_the_highlighted_copy_recovers_the_message() {
    let message = "Build done";
    assert_eq!(strip_control_sequences(&highlighted(message)), message);
    assert_eq!(clean(&highlighted(message)), "Build done\n");
}
