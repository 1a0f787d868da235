//! Environment diagnostics: one record per development tool, built
//! from what probing the tool returned, and the overall judgement
//! over all records. Probing itself — running each tool to ask its
//! version — happens outside this crate; its captured output is
//! handed in as plain text.

use vstd::prelude::*;
use vstd::string::StringExecFns;
use crate::output::{EnvCheck, EnvCheckResult};
use crate::text::{chars_vec, string_from_chars, trim_chars, trim_spec};

verus! {

/// The first line of a text: everything before the first newline,
/// with a carriage return left over from a two-character line ending
/// removed.
pub open spec fn line_prefix(s: Seq<char>) -> Seq<char>
    decreases s.len(),
{
    if s.len() == 0 {
        s
    } else if s[0] == '\n' {
        Seq::empty()
    } else {
        seq![s[0]] + line_prefix(s.drop_first())
    }
}

pub open spec fn strip_trailing_cr(p: Seq<char>) -> Seq<char> {
    if p.len() > 0 && p.last() == '\r' {
        p.drop_last()
    } else {
        p
    }
}

pub open spec fn first_line_spec(s: Seq<char>) -> Seq<char> {
    strip_trailing_cr(line_prefix(s))
}

proof fn lemma_line_prefix_at(s: Seq<char>, k: int)
    requires
        0 <= k <= s.len(),
        forall|j: int| 0 <= j < k ==> s[j] != '\n',
        k == s.len() || s[k] == '\n',
    ensures
        line_prefix(s) == s.take(k),
    decreases k,
{
    if k == 0 {
        assert(s.take(0) =~= Seq::<char>::empty());
        if s.len() > 0 {
            assert(s[0] == '\n');
        } else {
            assert(line_prefix(s) =~= s.take(0));
        }
    } else {
        assert(s[0] != '\n');
        let t = s.drop_first();
        lemma_line_prefix_at(t, k - 1);
        assert(seq![s[0]] + t.take(k - 1) =~= s.take(k));
    }
}

/// The first line of a character sequence.
fn first_line_chars(s: &Vec<char>) -> (r: Vec<char>)
    ensures
        r@ == first_line_spec(s@),
{
    let n = s.len();
    let mut k: usize = 0;
    while k < n && s[k] != '\n'
        invariant
            0 <= k <= n,
            n == s@.len(),
            forall|j: int| 0 <= j < k ==> s@[j] != '\n',
        decreases n - k,
    {
        k += 1;
    }
    proof {
        lemma_line_prefix_at(s@, k as int);
    }
    let end = if k > 0 && s[k - 1] == '\r' {
        k - 1
    } else {
        k
    };
    let mut r: Vec<char> = Vec::new();
    let mut i: usize = 0;
    while i < end
        invariant
            0 <= i <= end <= n,
            n == s@.len(),
            r@ == s@.subrange(0, i as int),
        decreases end - i,
    {
        r.push(s[i]);
        proof {
            assert(r@ =~= s@.subrange(0, i as int + 1));
        }
        i += 1;
    }
    proof {
        let p = s@.take(k as int);
        if k > 0 && s@[k as int - 1] == '\r' {
            assert(p.last() == '\r');
            assert(r@ =~= p.drop_last());
        } else {
            if k > 0 {
                assert(p.last() == s@[k as int - 1]);
            }
            assert(r@ =~= p);
        }
    }
    r
}

/// The version a probed tool reported: the first line of its trimmed
/// standard output, or, when that is empty, the first line of its
/// trimmed standard error (some tools report their version there).
pub fn version_from_output(stdout: &str, stderr: &str) -> (r: String)
    ensures
        r@ == if trim_spec(stdout@).len() == 0 {
            first_line_spec(trim_spec(stderr@))
        } else {
            first_line_spec(trim_spec(stdout@))
        },
{
    let out = chars_vec(stdout);
    let trimmed_out = trim_chars(&out);
    if trimmed_out.len() == 0 {
        let err = chars_vec(stderr);
        let trimmed_err = trim_chars(&err);
        let line = first_line_chars(&trimmed_err);
        string_from_chars(&line)
    } else {
        let line = first_line_chars(&trimmed_out);
        string_from_chars(&line)
    }
}

/// The platform list of a tool's record.
fn platforms_vec(ios: bool, android: bool) -> (r: Vec<String>)
    ensures
        r@.len() == (if ios && android {
            2int
        } else if ios || android {
            1int
        } else {
            0int
        }),
        ios ==> r@[0]@ == "ios"@,
        (!ios && android) ==> r@[0]@ == "android"@,
        (ios && android) ==> r@[1]@ == "android"@,
{
    let mut v: Vec<String> = Vec::new();
    if ios {
        v.push(String::from_str("ios"));
    }
    if android {
        v.push(String::from_str("android"));
    }
    v
}

/// One tool's record: present with its version when the probe
/// succeeded, else failed with the given error and suggested fix.
fn tool_check(
    name: &str,
    version: Option<String>,
    error_text: &str,
    fix_text: &str,
    ios: bool,
    android: bool,
) -> (r: EnvCheck)
    ensures
        r.name@ == name@,
        r.ok == (version is Some),
        r.version == version,
        (version is Some) ==> r.error is None && r.fix is None,
        (version is None) ==> (r.error matches Option::Some(e) && e@ == error_text@),
        (version is None) ==> (r.fix matches Option::Some(f) && f@ == fix_text@),
        r.required_for@.len() == (if ios && android {
            2int
        } else if ios || android {
            1int
        } else {
            0int
        }),
        ios ==> r.required_for@[0]@ == "ios"@,
        (!ios && android) ==> r.required_for@[0]@ == "android"@,
        (ios && android) ==> r.required_for@[1]@ == "android"@,
{
    let required_for = platforms_vec(ios, android);
    match version {
        Option::Some(v) => EnvCheck {
            name: String::from_str(name),
            ok: true,
            version: Option::Some(v),
            error: Option::None,
            fix: Option::None,
            required_for,
        },
        Option::None => EnvCheck {
            name: String::from_str(name),
            ok: false,
            version: Option::None,
            error: Option::Some(String::from_str(error_text)),
            fix: Option::Some(String::from_str(fix_text)),
            required_for,
        },
    }
}

/// The Node.js record; Node is required for both platforms.
pub fn check_node(version: Option<String>) -> (r: EnvCheck)
    ensures
        r.name@ == "node"@,
        r.ok == (version is Some),
        r.version == version,
        (version is Some) ==> r.error is None && r.fix is None,
        (version is None) ==> (r.error matches Option::Some(e) && e@ == "Node.js not found"@),
        (version is None) ==> (r.fix matches Option::Some(f) && f@
            == "Install Node.js: brew install node OR https://nodejs.org"@),
        r.required_for@.len() == 2 && r.required_for@[0]@ == "ios"@ && r.required_for@[1]@
            == "android"@,
{
    tool_check(
        "node",
        version,
        "Node.js not found",
        "Install Node.js: brew install node OR https://nodejs.org",
        true,
        true,
    )
}

/// The npm record; npm is required for both platforms.
pub fn check_npm(version: Option<String>) -> (r: EnvCheck)
    ensures
        r.name@ == "npm"@,
        r.ok == (version is Some),
        r.version == version,
        (version is Some) ==> r.error is None && r.fix is None,
        (version is None) ==> (r.error matches Option::Some(e) && e@ == "npm not found"@),
        (version is None) ==> (r.fix matches Option::Some(f) && f@
            == "npm comes with Node.js. Reinstall Node.js."@),
        r.required_for@.len() == 2 && r.required_for@[0]@ == "ios"@ && r.required_for@[1]@
            == "android"@,
{
    tool_check(
        "npm",
        version,
        "npm not found",
        "npm comes with Node.js. Reinstall Node.js.",
        true,
        true,
    )
}

/// The yarn record; yarn is optional, needed only by older React
/// Native versions.
pub fn check_yarn(version: Option<String>) -> (r: EnvCheck)
    ensures
        r.name@ == "yarn"@,
        r.ok == (version is Some),
        r.version == version,
        (version is Some) ==> r.error is None && r.fix is None,
        (version is None) ==> (r.error matches Option::Some(e) && e@
            == "yarn not found (optional, needed for RN < 0.74)"@),
        (version is None) ==> (r.fix matches Option::Some(f) && f@
            == "Install yarn: npm install -g yarn"@),
        r.required_for@.len() == 0,
{
    tool_check(
        "yarn",
        version,
        "yarn not found (optional, needed for RN < 0.74)",
        "Install yarn: npm install -g yarn",
        false,
        false,
    )
}

/// The watchman record; watchman is required for both platforms.
pub fn check_watchman(version: Option<String>) -> (r: EnvCheck)
    ensures
        r.name@ == "watchman"@,
        r.ok == (version is Some),
        r.version == version,
        (version is Some) ==> r.error is None && r.fix is None,
        (version is None) ==> (r.error matches Option::Some(e) && e@ == "watchman not found"@),
        (version is None) ==> (r.fix matches Option::Some(f) && f@
            == "Install watchman: brew install watchman"@),
        r.required_for@.len() == 2 && r.required_for@[0]@ == "ios"@ && r.required_for@[1]@
            == "android"@,
{
    tool_check(
        "watchman",
        version,
        "watchman not found",
        "Install watchman: brew install watchman",
        true,
        true,
    )
}

/// The CocoaPods record; CocoaPods is required for iOS.
pub fn check_cocoapods(version: Option<String>) -> (r: EnvCheck)
    ensures
        r.name@ == "cocoapods"@,
        r.ok == (version is Some),
        r.version == version,
        (version is Some) ==> r.error is None && r.fix is None,
        (version is None) ==> (r.error matches Option::Some(e) && e@ == "CocoaPods not found"@),
        (version is None) ==> (r.fix matches Option::Some(f) && f@
            == "Install CocoaPods: sudo gem install cocoapods OR brew install cocoapods"@),
        r.required_for@.len() == 1 && r.required_for@[0]@ == "ios"@,
{
    tool_check(
        "cocoapods",
        version,
        "CocoaPods not found",
        "Install CocoaPods: sudo gem install cocoapods OR brew install cocoapods",
        true,
        false,
    )
}

/// The Ruby record; Ruby is required for iOS, as CocoaPods needs it.
pub fn check_ruby(version: Option<String>) -> (r: EnvCheck)
    ensures
        r.name@ == "ruby"@,
        r.ok == (version is Some),
        r.version == version,
        (version is Some) ==> r.error is None && r.fix is None,
        (version is None) ==> (r.error matches Option::Some(e) && e@ == "Ruby not found"@),
        (version is None) ==> (r.fix matches Option::Some(f) && f@
            == "Ruby should be pre-installed on macOS. Try: brew install ruby"@),
        r.required_for@.len() == 1 && r.required_for@[0]@ == "ios"@,
{
    tool_check(
        "ruby",
        version,
        "Ruby not found",
        "Ruby should be pre-installed on macOS. Try: brew install ruby",
        true,
        false,
    )
}

/// The Java record; Java is required for Android.
pub fn check_java(version: Option<String>) -> (r: EnvCheck)
    ensures
        r.name@ == "java"@,
        r.ok == (version is Some),
        r.version == version,
        (version is Some) ==> r.error is None && r.fix is None,
        (version is None) ==> (r.error matches Option::Some(e) && e@ == "Java not found"@),
        (version is None) ==> (r.fix matches Option::Some(f) && f@
            == "Install Java: brew install openjdk@17"@),
        r.required_for@.len() == 1 && r.required_for@[0]@ == "android"@,
{
    tool_check(
        "java",
        version,
        "Java not found",
        "Install Java: brew install openjdk@17",
        false,
        true,
    )
}

/// The Xcode record: present when the probe found a version, but ok
/// only when the license check also passed.
pub fn check_xcode(version: Option<String>, license_ok: bool) -> (r: EnvCheck)
    ensures
        r.name@ == "xcode"@,
        r.ok == (version is Some && license_ok),
        r.version == version,
        (version is Some && license_ok) ==> r.error is None && r.fix is None,
        (version is Some && !license_ok) ==> (r.error matches Option::Some(e) && e@
            == "Xcode license not accepted or first launch not complete"@),
        (version is Some && !license_ok) ==> (r.fix matches Option::Some(f) && f@
            == "Run: sudo xcodebuild -license accept"@),
        (version is None) ==> (r.error matches Option::Some(e) && e@ == "Xcode not found"@),
        (version is None) ==> (r.fix matches Option::Some(f) && f@
            == "Install Xcode from the Mac App Store, then run: xcode-select --install"@),
        r.required_for@.len() == 1 && r.required_for@[0]@ == "ios"@,
{
    let required_for = platforms_vec(true, false);
    match version {
        Option::Some(v) => {
            if license_ok {
                EnvCheck {
                    name: String::from_str("xcode"),
                    ok: true,
                    version: Option::Some(v),
                    error: Option::None,
                    fix: Option::None,
                    required_for,
                }
            } else {
                EnvCheck {
                    name: String::from_str("xcode"),
                    ok: false,
                    version: Option::Some(v),
                    error: Option::Some(
                        String::from_str("Xcode license not accepted or first launch not complete"),
                    ),
                    fix: Option::Some(String::from_str("Run: sudo xcodebuild -license accept")),
                    required_for,
                }
            }
        },
        Option::None => EnvCheck {
            name: String::from_str("xcode"),
            ok: false,
            version: Option::None,
            error: Option::Some(String::from_str("Xcode not found")),
            fix: Option::Some(
                String::from_str(
                    "Install Xcode from the Mac App Store, then run: xcode-select --install",
                ),
            ),
            required_for,
        },
    }
}

/// The Android SDK record, judged from the SDK environment variable
/// and whether the path it names exists.
pub fn check_android_sdk(sdk_path: Option<String>, path_exists: bool) -> (r: EnvCheck)
    ensures
        r.name@ == "android_sdk"@,
        r.ok == (sdk_path is Some && path_exists),
        sdk_path matches Option::Some(p) ==> (if path_exists {
            (r.version matches Option::Some(v) && v@ == "ANDROID_HOME="@ + p@) && r.error is None
                && r.fix is None
        } else {
            r.version is None && (r.error matches Option::Some(e) && e@
                == "ANDROID_HOME points to non-existent path: "@ + p@) && (
            r.fix matches Option::Some(f) && f@
                == "Install Android Studio and set ANDROID_HOME to the SDK location"@)
        }),
        (sdk_path is None) ==> r.version is None && (r.error matches Option::Some(e) && e@
            == "ANDROID_HOME not set"@) && (r.fix matches Option::Some(f) && f@
            == "Install Android Studio, then add to ~/.zshrc: export ANDROID_HOME=$HOME/Library/Android/sdk"@),
        r.required_for@.len() == 1 && r.required_for@[0]@ == "android"@,
{
    let required_for = platforms_vec(false, true);
    match sdk_path {
        Option::Some(p) => {
            if path_exists {
                EnvCheck {
                    name: String::from_str("android_sdk"),
                    ok: true,
                    version: Option::Some(
                        String::from_str("ANDROID_HOME=").concat(p.as_str()),
                    ),
                    error: Option::None,
                    fix: Option::None,
                    required_for,
                }
            } else {
                EnvCheck {
                    name: String::from_str("android_sdk"),
                    ok: false,
                    version: Option::None,
                    error: Option::Some(
                        String::from_str("ANDROID_HOME points to non-existent path: ").concat(
                            p.as_str(),
                        ),
                    ),
                    fix: Option::Some(
                        String::from_str(
                            "Install Android Studio and set ANDROID_HOME to the SDK location",
                        ),
                    ),
                    required_for,
                }
            }
        },
        Option::None => EnvCheck {
            name: String::from_str("android_sdk"),
            ok: false,
            version: Option::None,
            error: Option::Some(String::from_str("ANDROID_HOME not set")),
            fix: Option::Some(
                String::from_str(
                    "Install Android Studio, then add to ~/.zshrc: export ANDROID_HOME=$HOME/Library/Android/sdk",
                ),
            ),
            required_for,
        },
    }
}

/// The tool is required by at least one platform.
pub open spec fn check_required(c: EnvCheck) -> bool {
    exists|i: int|
        0 <= i < c.required_for@.len() && (c.required_for@[i]@ == "ios"@ || c.required_for@[i]@
            == "android"@)
}

/// Some required tool failed its check.
pub open spec fn has_errors_spec(checks: Seq<EnvCheck>) -> bool {
    exists|i: int| 0 <= i < checks.len() && !checks[i].ok && check_required(checks[i])
}

/// Some optional tool failed its check.
pub open spec fn has_warnings_spec(checks: Seq<EnvCheck>) -> bool {
    exists|i: int| 0 <= i < checks.len() && !checks[i].ok && !check_required(checks[i])
}

fn required_flag(c: &EnvCheck) -> (r: bool)
    ensures
        r == check_required(*c),
{
    let ios = String::from_str("ios");
    let android = String::from_str("android");
    let mut j: usize = 0;
    while j < c.required_for.len()
        invariant
            0 <= j <= c.required_for@.len(),
            ios@ == "ios"@,
            android@ == "android"@,
            forall|k: int|
                0 <= k < j ==> c.required_for@[k]@ != "ios"@ && c.required_for@[k]@
                    != "android"@,
        decreases c.required_for@.len() - j,
    {
        if c.required_for[j] == ios || c.required_for[j] == android {
            return true;
        }
        j += 1;
    }
    false
}

/// The overall judgement of the environment: errors when some
/// required tool is missing, warnings when only optional tools are,
/// ok otherwise, with the matching summary, over exactly the given
/// records.
pub fn check_environment(checks: Vec<EnvCheck>) -> (r: EnvCheckResult)
    ensures
        r.checks == checks,
        r.overall_status@ == if has_errors_spec(checks@) {
            "errors"@
        } else if has_warnings_spec(checks@) {
            "warnings"@
        } else {
            "ok"@
        },
        r.summary@ == if has_errors_spec(checks@) {
            "Some required tools are missing. See 'fix' field for each failed check."@
        } else if has_warnings_spec(checks@) {
            "All required tools present. Some optional tools missing."@
        } else {
            "All development tools are properly installed."@
        },
{
    let mut has_errors = false;
    let mut has_warnings = false;
    let mut i: usize = 0;
    while i < checks.len()
        invariant
            0 <= i <= checks@.len(),
            has_errors == has_errors_spec(checks@.take(i as int)),
            has_warnings == has_warnings_spec(checks@.take(i as int)),
        decreases checks@.len() - i,
    {
        let ghost pre = checks@.take(i as int);
        let ghost post = checks@.take(i as int + 1);
        proof {
            assert(post.drop_last() =~= pre);
            assert(post.last() == checks@[i as int]);
            assert(forall|k: int| 0 <= k < pre.len() ==> post[k] == pre[k]);
        }
        let c_ok = checks[i].ok;
        let c_req = required_flag(&checks[i]);
        if !c_ok {
            if c_req {
                has_errors = true;
            } else {
                has_warnings = true;
            }
        }
        proof {
            if has_errors_spec(post) {
                let k = choose|k: int| 0 <= k < post.len() && !post[k].ok && check_required(
                    post[k],
                );
                if k < pre.len() {
                    assert(has_errors_spec(pre));
                }
            }
            if has_errors_spec(pre) {
                let k = choose|k: int| 0 <= k < pre.len() && !pre[k].ok && check_required(pre[k]);
                assert(!post[k].ok && check_required(post[k]));
            }
            if !c_ok && c_req {
                assert(!post[i as int].ok && check_required(post[i as int]));
            }
            if has_warnings_spec(post) {
                let k = choose|k: int| 0 <= k < post.len() && !post[k].ok && !check_required(
                    post[k],
                );
                if k < pre.len() {
                    assert(has_warnings_spec(pre));
                }
            }
            if has_warnings_spec(pre) {
                let k = choose|k: int| 0 <= k < pre.len() && !pre[k].ok && !check_required(
                    pre[k],
                );
                assert(!post[k].ok && !check_required(post[k]));
            }
            if !c_ok && !c_req {
                assert(!post[i as int].ok && !check_required(post[i as int]));
            }
        }
        i += 1;
    }
    proof {
        assert(checks@.take(checks@.len() as int) =~= checks@);
    }
    let overall_status = if has_errors {
        String::from_str("errors")
    } else if has_warnings {
        String::from_str("warnings")
    } else {
        String::from_str("ok")
    };
    let summary = if has_errors {
        String::from_str("Some required tools are missing. See 'fix' field for each failed check.")
    } else if has_warnings {
        String::from_str("All required tools present. Some optional tools missing.")
    } else {
        String::from_str("All development tools are properly installed.")
    };
    EnvCheckResult { overall_status, checks, summary }
}

} // verus!
