use rn_run::sanitize::{clean, collapse_progress, strip_control_sequences};

#[test]
fn strip_is_identity_on_plain_text() {
    let text = "plain text, no control sequences at all.\nsecond line\n";
    assert_eq!(strip_control_sequences(text), text);
}

#[test]
fn strip_removes_color_codes_and_carriage_returns() {
    let cleaned = clean("\x1b[32mBuilding\x1b[0m...\r\n");
    assert_eq!(cleaned, "Building...\n");
}

#[test]
fn strip_alone_removes_color_codes_and_carriage_returns() {
    let stripped = strip_control_sequences("\x1b[32mBuilding\x1b[0m...\r\n");
    assert_eq!(stripped, "Building...\n");
}

#[test]
fn strip_drops_lone_escape_marker() {
    assert_eq!(strip_control_sequences("a\x1bb"), "ab");
}

#[test]
fn strip_drops_escape_marker_at_end() {
    assert_eq!(strip_control_sequences("ab\x1b"), "ab");
}

#[test]
fn strip_discards_unterminated_sequence() {
    assert_eq!(strip_control_sequences("a\x1b[123"), "a");
}

#[test]
fn strip_consumes_until_first_letter_inclusive() {
    assert_eq!(strip_control_sequences("\x1b[1;31mred"), "red");
}

#[test]
fn collapse_dedupes_progress_frames() {
    let text = "- Building project...\n- Building project.....\n- Building project.";
    assert_eq!(collapse_progress(text), "- Building project...\n");
}

#[test]
fn collapse_drops_blank_lines_and_trims() {
    let text = "  hello  \n\n   \nworld\n";
    assert_eq!(collapse_progress(text), "hello\nworld\n");
}

#[test]
fn collapse_keeps_order_around_progress_lines() {
    let text = "- Compiling.\nlinking\n- Compiling..\ndone\n";
    assert_eq!(collapse_progress(text), "- Compiling...\nlinking\ndone\n");
}

#[test]
fn collapse_distinguishes_different_bases() {
    let text = "- Fetching pods.\n- Building app.\n- Fetching pods..\n";
    assert_eq!(collapse_progress(text), "- Fetching pods...\n- Building app...\n");
}

#[test]
fn collapse_leaves_bullet_without_trailing_period_alone() {
    // A line with the marker but no trailing period is not a progress
    // frame and passes through trimmed and unchanged.
    let text = "- item one\n- item one\n";
    assert_eq!(collapse_progress(text), "- item one\n- item one\n");
}

#[test]
fn clean_composes_strip_then_collapse() {
    let raw = "\x1b[36m- Downloading deps.\x1b[0m\r\n- Downloading deps..\r\nok\r\n";
    assert_eq!(clean(raw), "- Downloading deps...\nok\n");
}

#[test]
fn clean_of_empty_is_empty() {
    assert_eq!(clean(""), "");
}
