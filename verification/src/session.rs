//! The log session: the write-handle abstraction bound to one build
//! run's log file.
//!
//! The session decides content: the file's path, the fixed header it
//! starts with, how a message is framed for the file, and how a
//! highlighted message is styled for the console. Carrying those
//! values to the console and to disk is the caller's concern; each
//! append is meant to reopen the file, write, and close, so a crash
//! mid-session leaves a valid partial file.

use vstd::prelude::*;
use vstd::string::StringExecFns;
use crate::sanitize::{
    is_alpha_char, plain_text, strip_from, strip_spec, lemma_strip_plain_identity, ScanState,
};
use crate::store::LogStore;
use crate::text::esc_char;
use crate::time::{file_timestamp, header_timestamp, file_timestamp_spec, header_timestamp_spec,
    TimeParts};

verus! {

/// A live log session: one per build run, bound to the file it
/// created.
pub struct LogSession {
    /// The log file's path, surfaced to the user and embedded in
    /// structured output.
    pub path: String,
}

/// The header a new log file starts with: a title line naming the
/// platform, a line with the start timestamp, and a blank line.
pub open spec fn header_spec(platform: Seq<char>, timestamp: Seq<char>) -> Seq<char> {
    "=== rn-run "@ + platform + " build log ===\nStarted: "@ + timestamp + "\n\n"@
}

/// Builds the header text written when a session opens.
pub fn header(platform: &str, timestamp: &str) -> (r: String)
    ensures
        r@ == header_spec(platform@, timestamp@),
{
    let r = String::from_str("=== rn-run ").concat(platform).concat(
        " build log ===\nStarted: ",
    ).concat(timestamp).concat("\n\n");
    proof {
        assert(r@ =~= header_spec(platform@, timestamp@));
    }
    r
}

impl LogSession {
    /// What opening a session for a platform at a moment in time
    /// writes and where: the new log file's path and its header. The
    /// caller runs the store's rotation first, then creates the file
    /// at the returned path with truncate semantics and writes the
    /// header to it.
    pub fn open_plan(store: &LogStore, platform: &str, now: &TimeParts) -> (r: (LogSession, String))
        requires
            now.year < 10000,
            now.month < 100,
            now.day < 100,
            now.hour < 100,
            now.minute < 100,
            now.second < 100,
        ensures
            r.0.path@ == store.dir@ + "/rn-run-"@ + platform@ + "-"@ + file_timestamp_spec(*now)
                + ".log"@,
            r.1@ == header_spec(platform@, header_timestamp_spec(*now)),
    {
        let ts = file_timestamp(now);
        let path = store.allocate_path(platform, ts.as_str());
        let hts = header_timestamp(now);
        let head = header(platform, hts.as_str());
        (LogSession { path }, head)
    }
}

/// The file's copy of one written message: the message followed by a
/// newline.
pub fn file_line(message: &str) -> (r: String)
    ensures
        r@ == message@ + "\n"@,
{
    String::from_str(message).concat("\n")
}

/// The styling prefix put before a highlighted console message.
pub open spec fn style_on() -> Seq<char> {
    seq![esc_char(), '[', '1', 'm']
}

/// The styling suffix put after a highlighted console message.
pub open spec fn style_off() -> Seq<char> {
    seq![esc_char(), '[', '0', 'm']
}

/// The console's copy of a highlighted message: the plain text inside
/// a styling wrapper. The file's copy stays the plain text, so the
/// two sinks differ only in presentation.
pub fn highlighted(message: &str) -> (r: String)
    ensures
        r@ == style_on() + message@ + style_off(),
{
    let r = String::from_str("\u{1b}[1m").concat(message).concat("\u{1b}[0m");
    proof {
        reveal_strlit("\u{1b}[1m");
        reveal_strlit("\u{1b}[0m");
        assert(r@ =~= style_on() + message@ + style_off());
    }
    r
}

proof fn lemma_strip_with_style_off(m: Seq<char>, st: ScanState)
    ensures
        strip_from(m + style_off(), st) == strip_from(m, st),
    decreases m.len(), crate::sanitize::state_rank(st),
{
    if m.len() == 0 {
        assert(m + style_off() =~= style_off());
        let t = style_off();
        assert(t[0] == esc_char());
        assert(t.drop_first() =~= seq!['[', '0', 'm']);
        assert(seq!['[', '0', 'm'].drop_first() =~= seq!['0', 'm']);
        assert(seq!['0', 'm'].drop_first() =~= seq!['m']);
        assert(seq!['m'].drop_first() =~= Seq::<char>::empty());
        assert(is_alpha_char('m'));
        assert(strip_from(Seq::<char>::empty(), ScanState::Normal) =~= Seq::<char>::empty());
        assert(strip_from(Seq::<char>::empty(), ScanState::InSeq) =~= Seq::<char>::empty());
        assert(seq!['m'][0] == 'm');
        assert(strip_from(seq!['m'], ScanState::InSeq) =~= Seq::<char>::empty());
        assert(strip_from(seq!['0', 'm'], ScanState::InSeq) =~= Seq::<char>::empty());
        assert(strip_from(seq!['[', '0', 'm'], ScanState::AfterEsc) =~= Seq::<char>::empty());
        assert(strip_from(t, ScanState::Normal) =~= Seq::<char>::empty());
        match st {
            ScanState::Normal => {},
            ScanState::AfterEsc => {
                assert(strip_from(t, ScanState::AfterEsc) == strip_from(t, ScanState::Normal));
            },
            ScanState::InSeq => {
                assert(strip_from(t.drop_first(), ScanState::InSeq) =~= Seq::<char>::empty());
            },
        }
        assert(strip_from(m, st) =~= Seq::<char>::empty());
    } else {
        let w = m + style_off();
        assert(w[0] == m[0]);
        assert(w.drop_first() =~= m.drop_first() + style_off());
        match st {
            ScanState::Normal => {
                if m[0] == esc_char() {
                    lemma_strip_with_style_off(m.drop_first(), ScanState::AfterEsc);
                } else if m[0] == '\r' {
                    lemma_strip_with_style_off(m.drop_first(), ScanState::Normal);
                } else {
                    lemma_strip_with_style_off(m.drop_first(), ScanState::Normal);
                }
            },
            ScanState::AfterEsc => {
                if m[0] == '[' {
                    lemma_strip_with_style_off(m.drop_first(), ScanState::InSeq);
                } else {
                    lemma_strip_with_style_off(m, ScanState::Normal);
                }
            },
            ScanState::InSeq => {
                if is_alpha_char(m[0]) {
                    lemma_strip_with_style_off(m.drop_first(), ScanState::Normal);
                } else {
                    lemma_strip_with_style_off(m.drop_first(), ScanState::InSeq);
                }
            },
        }
    }
}

/// Sanitizing the console's styled copy of a highlighted message
/// yields exactly the plain message, for any message that itself
/// holds no escape markers or carriage returns: the two output sinks
/// never diverge in content, only in presentation.
pub proof fn lemma_highlighted_content(m: Seq<char>)
    requires
        plain_text(m),
    ensures
        strip_spec(style_on() + m + style_off()) == m,
{
    let w = style_on() + m + style_off();
    assert(w[0] == esc_char());
    assert(w.drop_first() =~= seq!['[', '1', 'm'] + m + style_off());
    let w1 = seq!['[', '1', 'm'] + m + style_off();
    assert(w1.drop_first() =~= seq!['1', 'm'] + m + style_off());
    let w2 = seq!['1', 'm'] + m + style_off();
    assert(w2.drop_first() =~= seq!['m'] + m + style_off());
    let w3 = seq!['m'] + m + style_off();
    assert(w3.drop_first() =~= m + style_off());
    assert(strip_from(w, ScanState::Normal) == strip_from(w1, ScanState::AfterEsc));
    assert(strip_from(w1, ScanState::AfterEsc) == strip_from(w2, ScanState::InSeq));
    assert(strip_from(w2, ScanState::InSeq) == strip_from(w3, ScanState::InSeq));
    assert(strip_from(w3, ScanState::InSeq) == strip_from(m + style_off(), ScanState::Normal));
    lemma_strip_with_style_off(m, ScanState::Normal);
    lemma_strip_plain_identity(m);
}

} // verus!
