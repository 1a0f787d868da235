//! Construction of the shell and AppleScript commands the tool hands
//! to the system, the package-manager decision, and the parsing of
//! process ids out of captured port-scan output. Spawning anything
//! happens outside this crate.

use vstd::prelude::*;
use vstd::string::StringExecFns;
use crate::args::Args;
use crate::text::{chars_vec, is_space_char, string_from_chars};
use crate::version::{has_dot_spec, is_version_greater_or_equal, version_ge_spec, views_of};

verus! {

/// `s` starts with `p`.
pub open spec fn starts_with_spec(s: Seq<char>, p: Seq<char>) -> bool {
    s.len() >= p.len() && s.subrange(0, p.len() as int) == p
}

/// Whether a string starts with the given prefix.
pub fn str_starts_with(s: &str, p: &str) -> (r: bool)
    ensures
        r == starts_with_spec(s@, p@),
{
    let sv = chars_vec(s);
    let pv = chars_vec(p);
    if sv.len() < pv.len() {
        return false;
    }
    let mut i: usize = 0;
    while i < pv.len()
        invariant
            0 <= i <= pv@.len() <= sv@.len(),
            sv@ == s@,
            pv@ == p@,
            forall|j: int| 0 <= j < i ==> sv@[j] == pv@[j],
        decreases pv@.len() - i,
    {
        if sv[i] != pv[i] {
            proof {
                assert(s@.subrange(0, p@.len() as int)[i as int] == s@[i as int]);
            }
            return false;
        }
        i += 1;
    }
    proof {
        assert(s@.subrange(0, p@.len() as int) =~= p@);
    }
    true
}

/// Which package manager a clean install uses: npm for React Native
/// at or above 0.74, yarn below.
pub fn package_manager_for(version: &str) -> (r: String)
    requires
        has_dot_spec(version@),
    ensures
        r@ == if version_ge_spec(version@, "0.74"@) {
            "npm"@
        } else {
            "yarn"@
        },
{
    proof {
        reveal_strlit("0.74");
        assert(("0.74"@)[1] == '.');
    }
    if is_version_greater_or_equal(version, "0.74") {
        String::from_str("npm")
    } else {
        String::from_str("yarn")
    }
}

/// The simulator a launch names: the requested one, or the default.
pub open spec fn sim_name_spec(simulator: Option<String>) -> Seq<char> {
    match simulator {
        Option::Some(s) => s@,
        Option::None => "iPhone 15"@,
    }
}

/// The launch command the platform flags and React Native version
/// select.
pub open spec fn sim_command_spec(ios: bool, android: bool, sim: Seq<char>, v: Seq<char>) -> Seq<
    char,
> {
    if ios && version_ge_spec(v, "0.74"@) {
        "npm run prebuild && npx react-native run-ios --simulator=\""@ + sim + "\""@
    } else if ios && starts_with_spec(v, "0.69"@) {
        "yarn react-native run-ios"@
    } else if android && version_ge_spec(v, "0.74"@) {
        "npm run prebuild && npx react-native run-android"@
    } else if android && starts_with_spec(v, "0.69"@) {
        "yarn react-native run-android"@
    } else {
        "echo \"No platform specified, use --help for more info\""@
    }
}

/// Builds the command that launches the app: npx for React Native at
/// or above 0.74 (naming the simulator on iOS), yarn for the 0.69
/// line, and a hint otherwise.
pub fn sim_command(args: &Args, version: &str) -> (r: String)
    requires
        has_dot_spec(version@),
    ensures
        r@ == sim_command_spec(args.ios, args.android, sim_name_spec(args.simulator), version@),
{
    proof {
        reveal_strlit("0.74");
        assert(("0.74"@)[1] == '.');
    }
    let ge074 = is_version_greater_or_equal(version, "0.74");
    let is069 = str_starts_with(version, "0.69");
    if args.ios && ge074 {
        let sim = match &args.simulator {
            Option::Some(s) => s.as_str(),
            Option::None => "iPhone 15",
        };
        let r = String::from_str("npm run prebuild && npx react-native run-ios --simulator=\"")
            .concat(sim).concat("\"");
        proof {
            assert(r@ =~= "npm run prebuild && npx react-native run-ios --simulator=\""@
                + sim_name_spec(args.simulator) + "\""@);
        }
        r
    } else if args.ios && is069 {
        String::from_str("yarn react-native run-ios")
    } else if args.android && ge074 {
        String::from_str("npm run prebuild && npx react-native run-android")
    } else if args.android && is069 {
        String::from_str("yarn react-native run-android")
    } else {
        String::from_str("echo \"No platform specified, use --help for more info\"")
    }
}

/// The string with every double quote preceded by a backslash, so it
/// can stand inside a quoted AppleScript literal.
pub open spec fn escape_quotes_spec(s: Seq<char>) -> Seq<char>
    decreases s.len(),
{
    if s.len() == 0 {
        s
    } else if s[0] == '"' {
        seq!['\\', '"'] + escape_quotes_spec(s.drop_first())
    } else {
        seq![s[0]] + escape_quotes_spec(s.drop_first())
    }
}

/// Escapes double quotes for embedding in an AppleScript string.
pub fn escape_quotes(s: &str) -> (r: String)
    ensures
        r@ == escape_quotes_spec(s@),
{
    let v = chars_vec(s);
    let mut out: Vec<char> = Vec::new();
    let mut i: usize = 0;
    proof {
        assert(v@.skip(0) =~= v@);
    }
    while i < v.len()
        invariant
            0 <= i <= v@.len(),
            v@ == s@,
            escape_quotes_spec(s@) == out@ + escape_quotes_spec(v@.skip(i as int)),
        decreases v@.len() - i,
    {
        let ghost t = v@.skip(i as int);
        let ghost out0 = out@;
        proof {
            assert(t[0] == v@[i as int]);
            assert(t.drop_first() =~= v@.skip(i as int + 1));
        }
        let c = v[i];
        if c == '"' {
            out.push('\\');
            out.push('"');
            proof {
                assert(out0 + (seq!['\\', '"'] + escape_quotes_spec(t.drop_first())) =~= out@
                    + escape_quotes_spec(t.drop_first()));
            }
        } else {
            out.push(c);
            proof {
                assert(out0 + (seq![c] + escape_quotes_spec(t.drop_first())) =~= out@
                    + escape_quotes_spec(t.drop_first()));
            }
        }
        i += 1;
    }
    proof {
        assert(v@.skip(i as int) =~= Seq::<char>::empty());
        assert(out@ + escape_quotes_spec(Seq::<char>::empty()) =~= out@);
    }
    string_from_chars(&out)
}

/// The AppleScript that opens a terminal in the project directory and
/// runs the (quote-escaped) launch command there.
pub fn terminal_do_script(dir: &str, command: &str) -> (r: String)
    ensures
        r@ == "tell application \"Terminal\" to do script \"cd "@ + dir@ + "; "@
            + escape_quotes_spec(command@) + "\""@,
{
    let escaped = escape_quotes(command);
    let r = String::from_str("tell application \"Terminal\" to do script \"cd ").concat(
        dir,
    ).concat("; ").concat(escaped.as_str()).concat("\"");
    proof {
        assert(r@ =~= "tell application \"Terminal\" to do script \"cd "@ + dir@ + "; "@
            + escape_quotes_spec(command@) + "\""@);
    }
    r
}

/// The AppleScript that opens a terminal in the project directory and
/// starts the packager there.
pub fn packager_script(dir: &str) -> (r: String)
    ensures
        r@ == "tell application \"Terminal\" to do script \"cd "@ + dir@ + "; yarn start\""@,
{
    let r = String::from_str("tell application \"Terminal\" to do script \"cd ").concat(
        dir,
    ).concat("; yarn start\"");
    proof {
        assert(r@ =~= "tell application \"Terminal\" to do script \"cd "@ + dir@
            + "; yarn start\""@);
    }
    r
}

/// The whitespace-separated tokens of `s`, with `cur` the token read
/// so far.
pub open spec fn ws_tokens(s: Seq<char>, cur: Seq<char>) -> Seq<Seq<char>>
    decreases s.len(),
{
    if s.len() == 0 {
        if cur.len() > 0 {
            seq![cur]
        } else {
            Seq::empty()
        }
    } else if is_space_char(s[0]) {
        (if cur.len() > 0 {
            seq![cur]
        } else {
            Seq::empty()
        }) + ws_tokens(s.drop_first(), Seq::empty())
    } else {
        ws_tokens(s.drop_first(), cur.push(s[0]))
    }
}

/// The whitespace-separated tokens of a text.
pub open spec fn tokens_of(s: Seq<char>) -> Seq<Seq<char>> {
    ws_tokens(s, Seq::empty())
}

pub open spec fn is_digit_char(c: char) -> bool {
    '0' as u32 <= c as u32 && c as u32 <= '9' as u32
}

pub open spec fn digit_val(c: char) -> int {
    c as u32 - '0' as u32
}

/// The number a string of decimal digits denotes.
pub open spec fn dec_value(t: Seq<char>) -> int
    decreases t.len(),
{
    if t.len() == 0 {
        0
    } else {
        dec_value(t.drop_last()) * 10 + digit_val(t.last())
    }
}

/// A token that parses as a 32-bit process id: decimal digits only,
/// at least one, with a value in range.
pub open spec fn valid_pid_token(t: Seq<char>) -> bool {
    t.len() >= 1 && (forall|i: int| 0 <= i < t.len() ==> is_digit_char(t[i])) && dec_value(t)
        < 4294967296
}

proof fn lemma_dec_value_nonneg(t: Seq<char>)
    requires
        forall|i: int| 0 <= i < t.len() ==> is_digit_char(t[i]),
    ensures
        dec_value(t) >= 0,
    decreases t.len(),
{
    if t.len() > 0 {
        lemma_dec_value_nonneg(t.drop_last());
    }
}

proof fn lemma_dec_value_mono(t: Seq<char>, j: int)
    requires
        0 <= j <= t.len(),
        forall|i: int| 0 <= i < t.len() ==> is_digit_char(t[i]),
    ensures
        dec_value(t.take(j)) <= dec_value(t),
    decreases t.len() - j,
{
    if j < t.len() {
        let p = t.take(j + 1);
        assert(p.drop_last() =~= t.take(j));
        assert(p.last() == t[j]);
        assert(forall|i: int| 0 <= i < t.take(j).len() ==> is_digit_char(t.take(j)[i]));
        lemma_dec_value_nonneg(t.take(j));
        assert(dec_value(p) == dec_value(t.take(j)) * 10 + digit_val(t[j]));
        assert(dec_value(t.take(j)) <= dec_value(p));
        lemma_dec_value_mono(t, j + 1);
    } else {
        assert(t.take(j) =~= t);
    }
}

/// Parses one decimal token as a 32-bit value.
fn parse_pid(t: &Vec<char>) -> (r: Option<u32>)
    ensures
        match r {
            Option::Some(v) => valid_pid_token(t@) && v == dec_value(t@),
            Option::None => !valid_pid_token(t@),
        },
{
    if t.len() == 0 {
        return Option::None;
    }
    let mut val: u64 = 0;
    let mut i: usize = 0;
    proof {
        assert(t@.take(0) =~= Seq::<char>::empty());
    }
    while i < t.len()
        invariant
            0 <= i <= t@.len(),
            forall|j: int| 0 <= j < i ==> is_digit_char(t@[j]),
            val == dec_value(t@.take(i as int)),
            val < 4294967296,
        decreases t@.len() - i,
    {
        let c = t[i];
        let u = c as u32;
        if u < '0' as u32 || u > '9' as u32 {
            return Option::None;
        }
        let d = (u - '0' as u32) as u64;
        let next = val * 10 + d;
        proof {
            assert(t@.take(i as int + 1).drop_last() =~= t@.take(i as int));
            assert(t@.take(i as int + 1).last() == t@[i as int]);
        }
        if next >= 4294967296 {
            proof {
                assert(dec_value(t@.take(i as int + 1)) == next);
                assert(forall|j: int| 0 <= j < t@.len() ==> is_digit_char(t@[j]) || !(j < i + 1)
                    || is_digit_char(t@[j]));
                if valid_pid_token(t@) {
                    lemma_dec_value_mono(t@, i as int + 1);
                }
            }
            return Option::None;
        }
        val = next;
        i += 1;
    }
    proof {
        assert(t@.take(t@.len() as int) =~= t@);
    }
    Option::Some(val as u32)
}

/// Splits a text into whitespace-separated tokens.
fn tokenize(text: &str) -> (r: Vec<Vec<char>>)
    ensures
        views_of(r@) == tokens_of(text@),
{
    let v = chars_vec(text);
    let mut toks: Vec<Vec<char>> = Vec::new();
    let mut cur: Vec<char> = Vec::new();
    let mut i: usize = 0;
    proof {
        assert(v@.skip(0) =~= v@);
        assert(views_of(toks@) =~= Seq::<Seq<char>>::empty());
    }
    while i < v.len()
        invariant
            0 <= i <= v@.len(),
            v@ == text@,
            tokens_of(text@) == views_of(toks@) + ws_tokens(
                v@.skip(i as int),
                cur@,
            ),
        decreases v@.len() - i,
    {
        let ghost t = v@.skip(i as int);
        let ghost toks0 = views_of(toks@);
        let ghost cur0 = cur@;
        proof {
            assert(t[0] == v@[i as int]);
            assert(t.drop_first() =~= v@.skip(i as int + 1));
        }
        let c = v[i];
        if crate::text::is_space(c) {
            if cur.len() > 0 {
                toks.push(cur);
                cur = Vec::new();
                proof {
                    assert(ws_tokens(t, cur0) == seq![cur0] + ws_tokens(
                        t.drop_first(),
                        Seq::empty(),
                    ));
                    assert(views_of(toks@) =~= toks0.push(cur0));
                    assert(toks0 + (seq![cur0] + ws_tokens(t.drop_first(), Seq::empty()))
                        =~= toks0.push(cur0) + ws_tokens(t.drop_first(), Seq::empty()));
                }
            } else {
                proof {
                    assert(cur0 =~= Seq::<char>::empty());
                    assert(ws_tokens(t, cur0) == Seq::<Seq<char>>::empty() + ws_tokens(
                        t.drop_first(),
                        Seq::empty(),
                    ));
                    assert(toks0 + (Seq::<Seq<char>>::empty() + ws_tokens(
                        t.drop_first(),
                        Seq::empty(),
                    )) =~= toks0 + ws_tokens(t.drop_first(), Seq::empty()));
                }
            }
        } else {
            cur.push(c);
            proof {
                assert(ws_tokens(t, cur0) == ws_tokens(t.drop_first(), cur0.push(c)));
            }
        }
        i += 1;
    }
    proof {
        assert(v@.skip(i as int) =~= Seq::<char>::empty());
    }
    if cur.len() > 0 {
        let ghost toks0 = views_of(toks@);
        let ghost cur0 = cur@;
        toks.push(cur);
        proof {
            assert(views_of(toks@) =~= toks0.push(cur0));
            assert(toks0 + seq![cur0] =~= toks0.push(cur0));
        }
    } else {
        proof {
            assert(views_of(toks@) + Seq::<Seq<char>>::empty()
                =~= views_of(toks@));
        }
    }
    toks
}

/// Parses the process ids out of a port scan's output: one decimal id
/// per whitespace-separated token. Yields nothing when any token is
/// not a process id; the caller treats that as a fatal parse failure.
pub fn parse_pids(text: &str) -> (r: Option<Vec<u32>>)
    ensures
        match r {
            Option::Some(v) => v@.len() == tokens_of(text@).len() && (forall|i: int|
                0 <= i < v@.len() ==> valid_pid_token(tokens_of(text@)[i]) && v@[i] == dec_value(
                    tokens_of(text@)[i],
                )),
            Option::None => exists|i: int|
                0 <= i < tokens_of(text@).len() && !valid_pid_token(tokens_of(text@)[i]),
        },
{
    let toks = tokenize(text);
    let mut out: Vec<u32> = Vec::new();
    let mut i: usize = 0;
    while i < toks.len()
        invariant
            0 <= i <= toks@.len(),
            views_of(toks@) == tokens_of(text@),
            out@.len() == i,
            forall|j: int|
                0 <= j < i ==> valid_pid_token(#[trigger] toks@[j]@) && out@[j] == dec_value(
                    toks@[j]@,
                ),
        decreases toks@.len() - i,
    {
        match parse_pid(&toks[i]) {
            Option::Some(v) => {
                let ghost out0 = out@;
                out.push(v);
                proof {
                    assert forall|j: int|
                        0 <= j < i + 1 implies valid_pid_token(#[trigger] toks@[j]@) && out@[j]
                        == dec_value(toks@[j]@) by {
                        if j < i {
                            assert(out@[j] == out0[j]);
                        } else {
                            assert(out@[j] == v);
                        }
                    }
                }
            },
            Option::None => {
                proof {
                    assert(views_of(toks@)[i as int] == toks@[i as int]@);
                    assert(views_of(toks@).len() == toks@.len());
                    assert(!valid_pid_token(tokens_of(text@)[i as int]));
                }
                return Option::None;
            },
        }
        i += 1;
    }
    proof {
        assert(views_of(toks@).len() == toks@.len());
        assert forall|k: int|
            0 <= k < out@.len() implies valid_pid_token(tokens_of(text@)[k]) && out@[k]
            == dec_value(tokens_of(text@)[k]) by {
            assert(valid_pid_token(toks@[k]@) && out@[k] == dec_value(toks@[k]@));
            assert(views_of(toks@)[k] == toks@[k]@);
        }
    }
    Option::Some(out)
}

} // verus!
