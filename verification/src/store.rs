//! The log store: path resolution and allocation for the on-disk log
//! directory, ordering of log entries by modification time, and the
//! bounded retention (rotation) policy.
//!
//! The store itself never touches the filesystem. Callers enumerate
//! the directory and hand the entries in as plain values; the store
//! computes the listing order, the retained set, and the set to
//! delete, and callers carry those decisions back to disk.

use vstd::prelude::*;
use vstd::multiset::Multiset;
use vstd::seq_lib::group_to_multiset_ensures;
use vstd::string::StringExecFns;
use crate::text::{chars_vec, string_from_chars};

verus! {

/// The retention cap: after a rotation pass at most this many log
/// files remain.
pub const MAX_LOGS: usize = 10;

/// The read-model of one log file on disk.
pub struct LogEntry {
    /// Full path of the file.
    pub path: String,
    /// The file's name, shown in listings.
    pub display_name: String,
    /// Size of the file in bytes.
    pub size_bytes: u64,
    /// Modification time, in seconds since the epoch; used for
    /// ordering. Callers map an unreadable time to zero so that such
    /// entries sort last.
    pub modified_timestamp: u64,
}

/// The log store's configuration: the directory that holds the log
/// files and the retention cap.
pub struct LogStore {
    /// The log directory path.
    pub dir: String,
    /// At most this many log files survive a rotation pass.
    pub max_logs: usize,
}

/// What a rotation pass decides: the entries to retain and the
/// entries to delete.
pub struct RotationPlan {
    /// The most recently modified entries, newest first.
    pub keep: Vec<LogEntry>,
    /// Every entry beyond the cap, newest first.
    pub delete: Vec<LogEntry>,
}

/// Newest first: modification times never increase along the
/// sequence.
pub open spec fn sorted_desc(s: Seq<LogEntry>) -> bool {
    forall|i: int, j: int|
        0 <= i < j < s.len() ==> s[i].modified_timestamp >= s[j].modified_timestamp
}

/// No two entries share a modification time.
pub open spec fn distinct_times(s: Seq<LogEntry>) -> bool {
    forall|i: int, j: int|
        0 <= i < j < s.len() ==> s[i].modified_timestamp != s[j].modified_timestamp
}

pub open spec fn min_len(a: int, b: int) -> int {
    if a <= b {
        a
    } else {
        b
    }
}

impl LogStore {
    /// A store over the given directory with the given retention cap.
    pub fn new(dir: String, max_logs: usize) -> (r: LogStore)
        ensures
            r.dir == dir,
            r.max_logs == max_logs,
    {
        LogStore { dir, max_logs }
    }

    /// The conventional log directory under the given home directory.
    /// Resolving the home location itself is the caller's concern;
    /// the caller falls back to the current working directory when it
    /// cannot be resolved.
    pub fn default_dir(home: &str) -> (r: String)
        ensures
            r@ == home@ + "/.rn-run/logs"@,
    {
        String::from_str(home).concat("/.rn-run/logs")
    }

    /// The path of a new log file for the given platform and
    /// timestamp: `<dir>/rn-run-<platform>-<timestamp>.log`. The file
    /// itself is not created here.
    pub fn allocate_path(&self, platform: &str, timestamp: &str) -> (r: String)
        ensures
            r@ == self.dir@ + "/rn-run-"@ + platform@ + "-"@ + timestamp@ + ".log"@,
    {
        let r = self.dir.clone().concat("/rn-run-").concat(platform).concat("-").concat(
            timestamp,
        ).concat(".log");
        proof {
            assert(r@ =~= self.dir@ + "/rn-run-"@ + platform@ + "-"@ + timestamp@ + ".log"@);
        }
        r
    }

    /// Splits the entries of the log directory into the retained set
    /// and the set to delete: the concatenation of the two is the
    /// input ordered newest first, and the retained set holds the
    /// first `max_logs` of it. Deleting is the caller's concern, and
    /// best-effort: a failed delete must never abort a build run.
    pub fn rotation_plan(&self, entries: Vec<LogEntry>) -> (r: RotationPlan)
        ensures
            sorted_desc(r.keep@ + r.delete@),
            (r.keep@ + r.delete@).to_multiset() == entries@.to_multiset(),
            r.keep@.len() == min_len(self.max_logs as int, entries@.len() as int),
            sorted_desc(r.keep@),
            forall|i: int, j: int|
                0 <= i < r.keep@.len() && 0 <= j < r.delete@.len()
                    ==> r.keep@[i].modified_timestamp >= r.delete@[j].modified_timestamp,
    {
        let mut sorted = sort_entries_desc(entries);
        let ghost whole = sorted@;
        proof {
            broadcast use group_to_multiset_ensures;

            assert(whole.to_multiset().len() == whole.len());
            assert(entries@.to_multiset().len() == entries@.len());
        }
        let cap = if self.max_logs <= sorted.len() {
            self.max_logs
        } else {
            sorted.len()
        };
        let mut delete: Vec<LogEntry> = Vec::new();
        proof {
            assert(sorted@ + delete@ =~= whole);
        }
        while sorted.len() > cap
            invariant
                cap <= sorted@.len(),
                sorted@ + delete@ =~= whole,
            decreases sorted@.len(),
        {
            let ghost s0 = sorted@;
            let ghost d0 = delete@;
            let e = match sorted.pop() {
                Some(e) => e,
                None => {
                    proof {
                        assert(false);
                    }
                    unreached()
                },
            };
            delete.insert(0, e);
            proof {
                assert(sorted@ + delete@ =~= s0 + d0);
            }
        }
        proof {
            assert(sorted@ + delete@ =~= whole);
            assert(whole.to_multiset() == entries@.to_multiset());
            assert(sorted@.len() == cap);
            assert(cap as int == min_len(self.max_logs as int, entries@.len() as int));
            assert(sorted_desc(sorted@ + delete@));
            assert forall|i: int, j: int| 0 <= i < j < sorted@.len() implies sorted@[i].modified_timestamp
                >= sorted@[j].modified_timestamp by {
                assert((sorted@ + delete@)[i] == sorted@[i]);
                assert((sorted@ + delete@)[j] == sorted@[j]);
            }
            assert forall|i: int, j: int|
                0 <= i < sorted@.len() && 0 <= j < delete@.len() implies sorted@[
                i].modified_timestamp >= delete@[j].modified_timestamp by {
                assert((sorted@ + delete@)[i] == sorted@[i]);
                assert((sorted@ + delete@)[sorted@.len() + j] == delete@[j]);
            }
        }
        RotationPlan { keep: sorted, delete }
    }
}

/// Inserts an entry into a sequence that is ordered newest first,
/// keeping the order.
fn insert_sorted(v: &mut Vec<LogEntry>, e: LogEntry)
    requires
        sorted_desc(old(v)@),
    ensures
        sorted_desc(final(v)@),
        final(v)@.to_multiset() == old(v)@.to_multiset().insert(e),
{
    let mut k: usize = 0;
    while k < v.len() && v[k].modified_timestamp >= e.modified_timestamp
        invariant
            0 <= k <= v@.len(),
            v@ == old(v)@,
            forall|i: int| 0 <= i < k ==> v@[i].modified_timestamp >= e.modified_timestamp,
        decreases v@.len() - k,
    {
        k += 1;
    }
    let ghost before = v@;
    let ghost kk = k as int;
    v.insert(k, e);
    proof {
        broadcast use group_to_multiset_ensures;

        vstd::seq_lib::to_multiset_insert(before, kk, e);
        assert forall|i: int, j: int| 0 <= i < j < v@.len() implies v@[i].modified_timestamp
            >= v@[j].modified_timestamp by {
            if j < kk {
            } else if i < kk && j == kk {
                assert(v@[i] == before[i]);
            } else if i < kk && j > kk {
                assert(v@[j] == before[j - 1]);
            } else if i == kk {
                assert(v@[j] == before[j - 1]);
                assert(kk < before.len() ==> before[kk].modified_timestamp
                    < e.modified_timestamp);
                assert(before[j - 1].modified_timestamp <= before[kk].modified_timestamp);
            } else {
                assert(v@[i] == before[i - 1] && v@[j] == before[j - 1]);
            }
        }
    }
}

/// Orders log entries newest first. Entries with equal modification
/// times keep no particular relative order; the result is some
/// reordering of the input.
pub fn sort_entries_desc(entries: Vec<LogEntry>) -> (r: Vec<LogEntry>)
    ensures
        sorted_desc(r@),
        r@.to_multiset() == entries@.to_multiset(),
{
    let mut rest = entries;
    let mut out: Vec<LogEntry> = Vec::new();
    proof {
        broadcast use group_to_multiset_ensures;

        assert(out@.to_multiset().add(rest@.to_multiset()) =~= entries@.to_multiset());
    }
    while rest.len() > 0
        invariant
            sorted_desc(out@),
            out@.to_multiset().add(rest@.to_multiset()) == entries@.to_multiset(),
        decreases rest@.len(),
    {
        let ghost rest0 = rest@;
        let ghost out_ms0 = out@.to_multiset();
        let e = match rest.pop() {
            Some(e) => e,
            None => {
                proof {
                    assert(false);
                }
                unreached()
            },
        };
        insert_sorted(&mut out, e);
        proof {
            broadcast use group_to_multiset_ensures;

            vstd::seq_lib::to_multiset_remove(rest0, rest0.len() - 1);
            assert(rest0.remove(rest0.len() - 1) =~= rest@);
            assert(out@.to_multiset().add(rest@.to_multiset()) =~= out_ms0.add(
                rest0.to_multiset(),
            ));
        }
    }
    proof {
        broadcast use group_to_multiset_ensures;

        assert(rest@ =~= Seq::<LogEntry>::empty());
        assert(rest@.to_multiset() =~= Multiset::<LogEntry>::empty());
        assert(out@.to_multiset() =~= out@.to_multiset().add(rest@.to_multiset()));
    }
    out
}

/// The index of the most recently modified entry, or nothing when
/// there are no entries. This is the entry that a listing ordered
/// newest first would put first.
pub fn latest_of(entries: &Vec<LogEntry>) -> (r: Option<usize>)
    ensures
        match r {
            Some(i) => i < entries@.len() && forall|j: int|
                0 <= j < entries@.len() ==> entries@[i as int].modified_timestamp
                    >= entries@[j].modified_timestamp,
            None => entries@.len() == 0,
        },
{
    if entries.len() == 0 {
        return None;
    }
    let mut best: usize = 0;
    let mut i: usize = 1;
    while i < entries.len()
        invariant
            0 <= best < entries@.len(),
            1 <= i <= entries@.len(),
            forall|j: int|
                0 <= j < i ==> entries@[best as int].modified_timestamp
                    >= entries@[j].modified_timestamp,
        decreases entries@.len() - i,
    {
        if entries[i].modified_timestamp > entries[best].modified_timestamp {
            best = i;
        }
        i += 1;
    }
    Some(best)
}

/// Whether a directory entry's name carries the log extension.
pub open spec fn has_log_ext_spec(s: Seq<char>) -> bool {
    s.len() >= 4 && s[s.len() - 4] == '.' && s[s.len() - 3] == 'l' && s[s.len() - 2] == 'o' && s[
        s.len() - 1] == 'g'
}

/// Whether a file name ends in `.log`.
pub fn has_log_extension(name: &str) -> (r: bool)
    ensures
        r == has_log_ext_spec(name@),
{
    let s = chars_vec(name);
    let n = s.len();
    n >= 4 && s[n - 4] == '.' && s[n - 3] == 'l' && s[n - 2] == 'o' && s[n - 1] == 'g'
}

/// The part of a path after its last separator; the whole path when
/// it has none.
pub open spec fn base_name_spec(s: Seq<char>) -> Seq<char>
    decreases s.len(),
{
    if s.len() == 0 {
        s
    } else if s.last() == '/' {
        Seq::empty()
    } else {
        base_name_spec(s.drop_last()).push(s.last())
    }
}

proof fn lemma_base_name_at(s: Seq<char>, j: int)
    requires
        0 <= j <= s.len(),
        forall|i: int| j <= i < s.len() ==> s[i] != '/',
        j == 0 || s[j - 1] == '/',
    ensures
        base_name_spec(s) == s.skip(j),
    decreases s.len(),
{
    if j == s.len() {
        if j == 0 {
            assert(s.skip(0) =~= s);
        } else {
            assert(s.last() == '/');
            assert(s.skip(j) =~= Seq::<char>::empty());
        }
    } else {
        assert(s.last() != '/');
        let t = s.drop_last();
        lemma_base_name_at(t, j);
        assert(t.skip(j).push(s.last()) =~= s.skip(j));
    }
}

/// A log entry's display name: the file name at the end of its path.
pub fn display_name_of(path: &str) -> (r: String)
    ensures
        r@ == base_name_spec(path@),
{
    let s = chars_vec(path);
    let n = s.len();
    let mut j: usize = n;
    while j > 0 && s[j - 1] != '/'
        invariant
            0 <= j <= n,
            n == s@.len(),
            forall|i: int| j <= i < n ==> s@[i] != '/',
        decreases j,
    {
        j -= 1;
    }
    proof {
        lemma_base_name_at(s@, j as int);
    }
    let mut r: Vec<char> = Vec::new();
    let mut i: usize = j;
    while i < n
        invariant
            j <= i <= n,
            n == s@.len(),
            r@ == s@.subrange(j as int, i as int),
        decreases n - i,
    {
        r.push(s[i]);
        proof {
            assert(r@ =~= s@.subrange(j as int, i as int + 1));
        }
        i += 1;
    }
    proof {
        assert(r@ =~= s@.skip(j as int));
    }
    string_from_chars(&r)
}

} // verus!
