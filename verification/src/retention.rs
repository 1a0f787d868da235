//! Laws of the retention policy.
//!
//! The store's rotation is modelled here as a pure transition over the
//! directory's contents, viewed newest first: a session open first
//! retains the `cap` most recently modified entries and then creates
//! one new file, newer than everything before it. The laws below pin
//! down what iterating that transition from an empty directory leaves
//! on disk, that a rotation pass with nothing over the cap deletes
//! nothing, and that the retained set is uniquely determined when no
//! two files share a modification time.

use vstd::prelude::*;
use vstd::seq_lib::group_to_multiset_ensures;
use crate::store::{distinct_times, min_len, sorted_desc, LogEntry};

verus! {

/// One session open, seen on the directory's contents ordered newest
/// first: the rotation pass retains the `cap` most recent entries,
/// then the new file, newer than all of them, is created.
pub open spec fn open_step(state: Seq<LogEntry>, e: LogEntry, cap: int) -> Seq<LogEntry> {
    seq![e] + state.take(min_len(cap, state.len() as int))
}

/// The directory's contents after opening one session per entry of
/// `created`, in order, against an initially empty store.
pub open spec fn run_opens(created: Seq<LogEntry>, cap: int) -> Seq<LogEntry>
    decreases created.len(),
{
    if created.len() == 0 {
        Seq::empty()
    } else {
        open_step(run_opens(created.drop_last(), cap), created.last(), cap)
    }
}

/// Creation times strictly increase along the sequence of opens.
pub open spec fn strictly_newer(created: Seq<LogEntry>) -> bool {
    forall|i: int, j: int|
        0 <= i < j < created.len() ==> created[i].modified_timestamp
            < created[j].modified_timestamp
}

/// After any number of session opens against an initially empty
/// store, the store holds exactly the `cap + 1` most recently created
/// files (fewer while fewer exist), newest first: each open retains
/// the `cap` most recent files before creating its own, so the count
/// settles at `cap + 1`, and a further rotation pass would leave the
/// `cap` most recent.
pub proof fn lemma_retention(created: Seq<LogEntry>, cap: int)
    requires
        cap >= 0,
        strictly_newer(created),
    ensures
        run_opens(created, cap).len() == min_len(created.len() as int, cap + 1),
        forall|k: int|
            0 <= k < run_opens(created, cap).len() ==> run_opens(created, cap)[k] == created[
                created.len() - 1 - k],
        sorted_desc(run_opens(created, cap)),
    decreases created.len(),
{
    if created.len() == 0 {
    } else {
        let prev = run_opens(created.drop_last(), cap);
        let e = created.last();
        assert(strictly_newer(created.drop_last()));
        lemma_retention(created.drop_last(), cap);
        let kept = prev.take(min_len(cap, prev.len() as int));
        assert(run_opens(created, cap) == seq![e] + kept);
        assert forall|k: int| 0 <= k < run_opens(created, cap).len() implies run_opens(
            created,
            cap,
        )[k] == created[created.len() - 1 - k] by {
            if k == 0 {
                assert((seq![e] + kept)[0] == e);
            } else {
                assert((seq![e] + kept)[k] == kept[k - 1]);
                assert(kept[k - 1] == prev[k - 1]);
                assert(prev[k - 1] == created.drop_last()[created.drop_last().len() - 1 - (k
                    - 1)]);
            }
        }
        assert forall|i: int, j: int|
            0 <= i < j < run_opens(created, cap).len() implies run_opens(
            created,
            cap,
        )[i].modified_timestamp >= run_opens(created, cap)[j].modified_timestamp by {
            assert(run_opens(created, cap)[i] == created[created.len() - 1 - i]);
            assert(run_opens(created, cap)[j] == created[created.len() - 1 - j]);
        }
    }
}

/// Rotation is idempotent: a rotation pass over a retained set that
/// is already within the cap deletes nothing and keeps the set
/// unchanged. The hypotheses are what the store's rotation guarantees
/// of any pass over the previously retained entries.
pub proof fn lemma_rotation_idempotent(
    keep1: Seq<LogEntry>,
    keep2: Seq<LogEntry>,
    delete2: Seq<LogEntry>,
    cap: int,
)
    requires
        keep1.len() <= cap,
        keep2.len() == min_len(cap, keep1.len() as int),
        (keep2 + delete2).to_multiset() == keep1.to_multiset(),
    ensures
        delete2.len() == 0,
        keep2.to_multiset() == keep1.to_multiset(),
{
    broadcast use group_to_multiset_ensures;

    assert((keep2 + delete2).to_multiset().len() == (keep2 + delete2).len());
    assert(keep1.to_multiset().len() == keep1.len());
    assert(keep2.len() == keep1.len());
    assert(delete2.len() == 0);
    assert(keep2 + delete2 =~= keep2);
}

/// What a rotation pass retains is exactly determined when no two
/// entries share a modification time: any split that meets the
/// rotation's contract keeps precisely the `cap` newest entries of
/// the listing order, and deletes the rest. The hypotheses are the
/// store's listing order and what its rotation guarantees.
pub proof fn lemma_rotation_determined(
    entries: Seq<LogEntry>,
    keep: Seq<LogEntry>,
    delete: Seq<LogEntry>,
    cap: int,
)
    requires
        sorted_desc(entries),
        distinct_times(entries),
        sorted_desc(keep + delete),
        (keep + delete).to_multiset() == entries.to_multiset(),
        keep.len() == min_len(cap, entries.len() as int),
    ensures
        keep == entries.take(min_len(cap, entries.len() as int)),
        delete == entries.skip(min_len(cap, entries.len() as int)),
{
    lemma_sorted_permutation_unique(entries, keep + delete);
    assert(keep =~= (keep + delete).take(keep.len() as int));
    assert(delete =~= (keep + delete).skip(keep.len() as int));
}

/// Two sequences ordered newest first that hold the same entries are
/// equal when no two entries share a modification time: ties aside,
/// the retained set and the listing order are uniquely determined.
pub proof fn lemma_sorted_permutation_unique(a: Seq<LogEntry>, b: Seq<LogEntry>)
    requires
        sorted_desc(a),
        sorted_desc(b),
        distinct_times(a),
        a.to_multiset() == b.to_multiset(),
    ensures
        a == b,
    decreases a.len(),
{
    broadcast use group_to_multiset_ensures;

    assert(a.to_multiset().len() == a.len());
    assert(b.to_multiset().len() == b.len());
    if a.len() == 0 {
        assert(a =~= b);
    } else {
        assert(a.contains(a[0]));
        assert(b.to_multiset().count(a[0]) > 0);
        assert(b.contains(a[0]));
        let bi = choose|bi: int| 0 <= bi < b.len() && b[bi] == a[0];
        assert(b[0].modified_timestamp >= a[0].modified_timestamp);
        assert(b.contains(b[0]));
        assert(a.to_multiset().count(b[0]) > 0);
        assert(a.contains(b[0]));
        let aj = choose|aj: int| 0 <= aj < a.len() && a[aj] == b[0];
        assert(a[0].modified_timestamp >= b[0].modified_timestamp);
        assert(a[0].modified_timestamp == b[0].modified_timestamp);
        if aj != 0 {
            assert(a[0].modified_timestamp != a[aj].modified_timestamp);
            assert(false);
        }
        assert(a[0] == b[0]);
        let a1 = a.drop_first();
        let b1 = b.drop_first();
        vstd::seq_lib::to_multiset_remove(a, 0);
        vstd::seq_lib::to_multiset_remove(b, 0);
        assert(a.remove(0) =~= a1);
        assert(b.remove(0) =~= b1);
        assert(a1.to_multiset() == b1.to_multiset());
        assert(sorted_desc(a1) && sorted_desc(b1) && distinct_times(a1));
        lemma_sorted_permutation_unique(a1, b1);
        assert forall|i: int| 0 <= i < a.len() implies a[i] == b[i] by {
            if i > 0 {
                assert(a1[i - 1] == a[i]);
                assert(b1[i - 1] == b[i]);
            }
        }
        assert(a =~= b);
    }
}

} // verus!
