//! The content sanitizer: two composed pure transforms applied to
//! previously captured raw log text before it is shown to the user.
//!
//! `strip_control_sequences` removes terminal control sequences and
//! carriage returns in a single forward scan; `collapse_progress`
//! drops blank lines and deduplicates repeated progress-spinner
//! frames, line by line. `clean` is their composition. Raw files on
//! disk are never touched: these run only on the viewing path.

use vstd::prelude::*;
use crate::text::{chars_eq, chars_vec, esc_char, push_all, string_from_chars, trim_chars,
    trim_spec};

verus! {

/// An ASCII letter, which terminates a control sequence.
pub open spec fn is_alpha_char(c: char) -> bool {
    ('a' as u32 <= c as u32 && c as u32 <= 'z' as u32) || ('A' as u32 <= c as u32 && c as u32
        <= 'Z' as u32)
}

pub fn is_alpha(c: char) -> (r: bool)
    ensures
        r == is_alpha_char(c),
{
    ('a' as u32 <= c as u32 && c as u32 <= 'z' as u32) || ('A' as u32 <= c as u32 && c as u32
        <= 'Z' as u32)
}

/// The scanner's state: outside any escape, just past an escape
/// marker, or inside a control sequence waiting for its final letter.
pub enum ScanState {
    Normal,
    AfterEsc,
    InSeq,
}

/// Ranks `AfterEsc` above the others: an escape marker not followed by
/// the introducer is dropped alone and its follower is rescanned
/// without consuming input, so termination needs a second measure.
pub open spec fn state_rank(st: ScanState) -> nat {
    match st {
        ScanState::AfterEsc => 1,
        _ => 0,
    }
}

/// What the stripping scan emits for the rest of the input, given the
/// scanner's state.
pub open spec fn strip_from(s: Seq<char>, st: ScanState) -> Seq<char>
    decreases s.len(), state_rank(st),
{
    if s.len() == 0 {
        Seq::empty()
    } else {
        match st {
            ScanState::Normal => {
                if s[0] == esc_char() {
                    strip_from(s.drop_first(), ScanState::AfterEsc)
                } else if s[0] == '\r' {
                    strip_from(s.drop_first(), ScanState::Normal)
                } else {
                    seq![s[0]] + strip_from(s.drop_first(), ScanState::Normal)
                }
            },
            ScanState::AfterEsc => {
                if s[0] == '[' {
                    strip_from(s.drop_first(), ScanState::InSeq)
                } else {
                    strip_from(s, ScanState::Normal)
                }
            },
            ScanState::InSeq => {
                if is_alpha_char(s[0]) {
                    strip_from(s.drop_first(), ScanState::Normal)
                } else {
                    strip_from(s.drop_first(), ScanState::InSeq)
                }
            },
        }
    }
}

/// The stripped form of a text: control sequences (escape marker,
/// introducer, everything up to and including the first letter),
/// stray escape markers, and all carriage returns removed; everything
/// else kept in order.
pub open spec fn strip_spec(s: Seq<char>) -> Seq<char> {
    strip_from(s, ScanState::Normal)
}

/// Removes terminal control sequences and carriage returns in one
/// left-to-right pass. Output ordering equals input ordering minus the
/// removed spans.
pub fn strip_control_sequences(text: &str) -> (r: String)
    ensures
        r@ == strip_spec(text@),
{
    let s = chars_vec(text);
    let mut out: Vec<char> = Vec::new();
    let mut st = ScanState::Normal;
    let mut i: usize = 0;
    proof {
        assert(s@.skip(0) =~= s@);
    }
    while i < s.len()
        invariant
            0 <= i <= s@.len(),
            s@ == text@,
            strip_spec(text@) == out@ + strip_from(s@.skip(i as int), st),
        decreases s@.len() - i,
    {
        let ghost t = s@.skip(i as int);
        let ghost out0 = out@;
        proof {
            assert(t[0] == s@[i as int]);
            assert(t.drop_first() =~= s@.skip(i as int + 1));
        }
        let c = s[i];
        match st {
            ScanState::Normal => {
                if c == '\u{1b}' {
                    st = ScanState::AfterEsc;
                } else if c == '\r' {
                    // dropped
                } else {
                    out.push(c);
                    proof {
                        assert(out0 + (seq![c] + strip_from(t.drop_first(), ScanState::Normal))
                            =~= out@ + strip_from(t.drop_first(), ScanState::Normal));
                    }
                }
            },
            ScanState::AfterEsc => {
                if c == '[' {
                    st = ScanState::InSeq;
                } else {
                    // The escape marker was dropped alone; rescan this
                    // character as ordinary input.
                    proof {
                        assert(strip_from(t, ScanState::AfterEsc) == strip_from(
                            t,
                            ScanState::Normal,
                        ));
                    }
                    if c == '\u{1b}' {
                        st = ScanState::AfterEsc;
                    } else if c == '\r' {
                        st = ScanState::Normal;
                    } else {
                        out.push(c);
                        st = ScanState::Normal;
                        proof {
                            assert(out0 + (seq![c] + strip_from(t.drop_first(), ScanState::Normal))
                                =~= out@ + strip_from(t.drop_first(), ScanState::Normal));
                        }
                    }
                }
            },
            ScanState::InSeq => {
                if is_alpha(c) {
                    st = ScanState::Normal;
                } else {
                    st = ScanState::InSeq;
                }
            },
        }
        i += 1;
    }
    proof {
        assert(s@.skip(i as int) =~= Seq::<char>::empty());
        assert(strip_from(s@.skip(i as int), st) =~= Seq::<char>::empty());
        assert(out@ + Seq::<char>::empty() =~= out@);
    }
    string_from_chars(&out)
}

/// Text free of escape markers and carriage returns.
pub open spec fn plain_text(s: Seq<char>) -> bool {
    forall|i: int| 0 <= i < s.len() ==> s[i] != esc_char() && s[i] != '\r'
}

/// Stripping control sequences is the identity on text that contains
/// no escape-marker and no carriage-return characters.
pub proof fn lemma_strip_plain_identity(s: Seq<char>)
    requires
        plain_text(s),
    ensures
        strip_spec(s) == s,
    decreases s.len(),
{
    if s.len() == 0 {
        assert(strip_spec(s) =~= s);
    } else {
        assert(s[0] != esc_char() && s[0] != '\r');
        assert(plain_text(s.drop_first()));
        lemma_strip_plain_identity(s.drop_first());
        assert(seq![s[0]] + s.drop_first() =~= s);
    }
}

/// A progress-spinner line: its trimmed form starts with the
/// two-character marker `"- "` and ends with a period.
pub open spec fn is_progress_line(t: Seq<char>) -> bool {
    t.len() >= 2 && t[0] == '-' && t[1] == ' ' && t.last() == '.'
}

/// A progress line's base: the trimmed line with trailing periods
/// removed.
pub open spec fn trim_dots(t: Seq<char>) -> Seq<char>
    decreases t.len(),
{
    if t.len() > 0 && t.last() == '.' {
        trim_dots(t.drop_last())
    } else {
        t
    }
}

/// What one (already trimmed) line contributes to the collapsed
/// output, given the set of progress bases seen so far.
pub open spec fn line_out(t: Seq<char>, seen: Set<Seq<char>>) -> Seq<char> {
    if t.len() == 0 {
        Seq::empty()
    } else if is_progress_line(t) {
        if seen.contains(trim_dots(t)) {
            Seq::empty()
        } else {
            trim_dots(t) + seq!['.', '.', '.', '\n']
        }
    } else {
        t + seq!['\n']
    }
}

/// The seen-base set after one (already trimmed) line.
pub open spec fn seen_after(t: Seq<char>, seen: Set<Seq<char>>) -> Set<Seq<char>> {
    if is_progress_line(t) {
        seen.insert(trim_dots(t))
    } else {
        seen
    }
}

/// The collapsed output for the rest of the input, with `cur` the
/// characters of the line read so far and `seen` the progress bases
/// already emitted or suppressed.
pub open spec fn collapse_from(s: Seq<char>, cur: Seq<char>, seen: Set<Seq<char>>) -> Seq<char>
    decreases s.len(),
{
    if s.len() == 0 {
        line_out(trim_spec(cur), seen)
    } else if s[0] == '\n' {
        line_out(trim_spec(cur), seen) + collapse_from(
            s.drop_first(),
            Seq::empty(),
            seen_after(trim_spec(cur), seen),
        )
    } else {
        collapse_from(s.drop_first(), cur.push(s[0]), seen)
    }
}

/// The collapsed form of a text: blank lines dropped, other lines
/// emitted trimmed in order, and repeated progress frames for an
/// already-seen base elided; the first frame of each base is emitted
/// as the base followed by three periods.
pub open spec fn collapse_spec(s: Seq<char>) -> Seq<char> {
    collapse_from(s, Seq::empty(), Set::empty())
}

/// Trims trailing periods from a line.
fn trim_dots_chars(t: &Vec<char>) -> (r: Vec<char>)
    ensures
        r@ == trim_dots(t@),
{
    let mut b: usize = t.len();
    proof {
        assert(t@.take(t@.len() as int) =~= t@);
    }
    while b > 0 && t[b - 1] == '.'
        invariant
            0 <= b <= t@.len(),
            trim_dots(t@) == trim_dots(t@.take(b as int)),
        decreases b,
    {
        proof {
            let p = t@.take(b as int);
            assert(p.last() == t@[b as int - 1]);
            assert(p.drop_last() =~= t@.take(b as int - 1));
        }
        b -= 1;
    }
    let mut r: Vec<char> = Vec::new();
    let mut i: usize = 0;
    while i < b
        invariant
            0 <= i <= b <= t@.len(),
            r@ == t@.subrange(0, i as int),
        decreases b - i,
    {
        r.push(t[i]);
        proof {
            assert(r@ =~= t@.subrange(0, i as int + 1));
        }
        i += 1;
    }
    proof {
        let p = t@.take(b as int);
        if b > 0 {
            assert(p.last() == t@[b as int - 1]);
        }
        assert(trim_dots(p) == p);
        assert(r@ =~= p);
    }
    r
}

/// Whether the trimmed line is a progress-spinner line.
fn is_progress(t: &Vec<char>) -> (r: bool)
    ensures
        r == is_progress_line(t@),
{
    t.len() >= 2 && t[0] == '-' && t[1] == ' ' && t[t.len() - 1] == '.'
}

/// Whether a base has been recorded already.
fn seen_contains(seen: &Vec<Vec<char>>, x: &Vec<char>) -> (r: bool)
    ensures
        r == (exists|k: int| 0 <= k < seen@.len() && seen@[k]@ == x@),
{
    let mut i: usize = 0;
    while i < seen.len()
        invariant
            0 <= i <= seen@.len(),
            forall|k: int| 0 <= k < i ==> seen@[k]@ != x@,
        decreases seen@.len() - i,
    {
        if chars_eq(&seen[i], x) {
            return true;
        }
        i += 1;
    }
    false
}

/// Collapses repeated progress-spinner lines, line by line: blank
/// lines are dropped, other lines are emitted trimmed in their
/// original order, and a progress line whose base was already seen in
/// this call is suppressed.
pub fn collapse_progress(text: &str) -> (r: String)
    ensures
        r@ == collapse_spec(text@),
{
    let s = chars_vec(text);
    let mut out: Vec<char> = Vec::new();
    let mut cur: Vec<char> = Vec::new();
    let mut seen: Vec<Vec<char>> = Vec::new();
    let ghost mut seen_model = Set::<Seq<char>>::empty();
    let mut i: usize = 0;
    proof {
        assert(s@.skip(0) =~= s@);
    }
    while i < s.len()
        invariant
            0 <= i <= s@.len(),
            s@ == text@,
            collapse_spec(text@) == out@ + collapse_from(s@.skip(i as int), cur@, seen_model),
            forall|b: Seq<char>|
                seen_model.contains(b) <==> (exists|k: int|
                    0 <= k < seen@.len() && seen@[k]@ == b),
        decreases s@.len() - i,
    {
        let ghost t = s@.skip(i as int);
        proof {
            assert(t[0] == s@[i as int]);
            assert(t.drop_first() =~= s@.skip(i as int + 1));
        }
        let c = s[i];
        if c == '\n' {
            let trimmed = trim_chars(&cur);
            let ghost out0 = out@;
            if trimmed.len() > 0 {
                if is_progress(&trimmed) {
                    let base = trim_dots_chars(&trimmed);
                    let ghost seen0 = seen@;
                    if !seen_contains(&seen, &base) {
                        push_all(&mut out, &base);
                        out.push('.');
                        out.push('.');
                        out.push('.');
                        out.push('\n');
                        seen.push(base);
                        proof {
                            assert(out@ =~= out0 + line_out(trim_spec(cur@), seen_model));
                            seen_model = seen_after(trim_spec(cur@), seen_model);
                            assert forall|b: Seq<char>|
                                seen_model.contains(b) <==> (exists|k: int|
                                    0 <= k < seen@.len() && seen@[k]@ == b) by {
                                if b == trim_dots(trim_spec(cur@)) {
                                    assert(seen@[seen0.len() as int]@ == b);
                                } else {
                                    assert(forall|k: int|
                                        0 <= k < seen0.len() ==> seen@[k] == seen0[k]);
                                }
                            }
                        }
                    } else {
                        proof {
                            assert(out@ =~= out0 + line_out(trim_spec(cur@), seen_model));
                            assert(seen_model.contains(trim_dots(trim_spec(cur@))));
                            assert(seen_after(trim_spec(cur@), seen_model) =~= seen_model);
                            seen_model = seen_after(trim_spec(cur@), seen_model);
                        }
                    }
                } else {
                    push_all(&mut out, &trimmed);
                    out.push('\n');
                    proof {
                        assert(out@ =~= out0 + line_out(trim_spec(cur@), seen_model));
                        assert(seen_after(trim_spec(cur@), seen_model) == seen_model);
                    }
                }
            } else {
                proof {
                    assert(line_out(trim_spec(cur@), seen_model) =~= Seq::<char>::empty());
                    assert(out@ =~= out0 + line_out(trim_spec(cur@), seen_model));
                    assert(seen_after(trim_spec(cur@), seen_model) == seen_model);
                }
            }
            cur = Vec::new();
        } else {
            cur.push(c);
        }
        i += 1;
    }
    proof {
        assert(s@.skip(i as int) =~= Seq::<char>::empty());
    }
    let trimmed = trim_chars(&cur);
    let ghost out0 = out@;
    if trimmed.len() > 0 {
        if is_progress(&trimmed) {
            let base = trim_dots_chars(&trimmed);
            if !seen_contains(&seen, &base) {
                push_all(&mut out, &base);
                out.push('.');
                out.push('.');
                out.push('.');
                out.push('\n');
                proof {
                    assert(out@ =~= out0 + line_out(trim_spec(cur@), seen_model));
                }
            } else {
                proof {
                    assert(out@ =~= out0 + line_out(trim_spec(cur@), seen_model));
                }
            }
        } else {
            push_all(&mut out, &trimmed);
            out.push('\n');
            proof {
                assert(out@ =~= out0 + line_out(trim_spec(cur@), seen_model));
            }
        }
    } else {
        proof {
            assert(line_out(trim_spec(cur@), seen_model) =~= Seq::<char>::empty());
            assert(out@ =~= out0 + line_out(trim_spec(cur@), seen_model));
        }
    }
    string_from_chars(&out)
}

/// The fully sanitized form of raw captured text: control sequences
/// stripped, then progress lines collapsed.
pub open spec fn clean_spec(s: Seq<char>) -> Seq<char> {
    collapse_spec(strip_spec(s))
}

/// Sanitizes previously captured raw log content for display: strips
/// control sequences, then collapses progress lines.
pub fn clean(text: &str) -> (r: String)
    ensures
        r@ == clean_spec(text@),
{
    let stripped = strip_control_sequences(text);
    collapse_progress(stripped.as_str())
}

} // verus!
