//! Version-string handling: splitting a version into dot-separated
//! components and the component-wise comparison the tool uses to pick
//! between package managers and launch commands.

use vstd::prelude::*;
use crate::text::chars_vec;

verus! {

/// The dot-separated parts of `s`, with `cur` the characters of the
/// part read so far.
pub open spec fn split_at_dots(s: Seq<char>, cur: Seq<char>) -> Seq<Seq<char>>
    decreases s.len(),
{
    if s.len() == 0 {
        seq![cur]
    } else if s[0] == '.' {
        seq![cur] + split_at_dots(s.drop_first(), Seq::empty())
    } else {
        split_at_dots(s.drop_first(), cur.push(s[0]))
    }
}

/// The dot-separated parts of a version string; always at least one.
pub open spec fn split_dots(s: Seq<char>) -> Seq<Seq<char>> {
    split_at_dots(s, Seq::empty())
}

/// The string holds at least one dot, so it splits into at least two
/// parts.
pub open spec fn has_dot_spec(s: Seq<char>) -> bool {
    exists|i: int| 0 <= i < s.len() && s[i] == '.'
}

proof fn lemma_split_len_ge_one(s: Seq<char>, cur: Seq<char>)
    ensures
        split_at_dots(s, cur).len() >= 1,
    decreases s.len(),
{
    if s.len() != 0 {
        if s[0] == '.' {
            lemma_split_len_ge_one(s.drop_first(), Seq::empty());
        } else {
            lemma_split_len_ge_one(s.drop_first(), cur.push(s[0]));
        }
    }
}

proof fn lemma_split_len_with_dot(s: Seq<char>, cur: Seq<char>)
    requires
        has_dot_spec(s),
    ensures
        split_at_dots(s, cur).len() >= 2,
    decreases s.len(),
{
    let i = choose|i: int| 0 <= i < s.len() && s[i] == '.';
    if s[0] == '.' {
        lemma_split_len_ge_one(s.drop_first(), Seq::empty());
    } else {
        assert(i >= 1);
        assert(s.drop_first()[i - 1] == '.');
        lemma_split_len_with_dot(s.drop_first(), cur.push(s[0]));
    }
}

/// Strict lexicographic order on character sequences, by code point;
/// this is the order in which the tool compares version components.
pub open spec fn lex_lt(a: Seq<char>, b: Seq<char>) -> bool
    decreases a.len(),
{
    if b.len() == 0 {
        false
    } else if a.len() == 0 {
        true
    } else if (a[0] as u32) < (b[0] as u32) {
        true
    } else if (a[0] as u32) > (b[0] as u32) {
        false
    } else {
        lex_lt(a.drop_first(), b.drop_first())
    }
}

proof fn lemma_lex_skip(a: Seq<char>, b: Seq<char>, i: int)
    requires
        0 <= i <= a.len(),
        i <= b.len(),
        forall|j: int| 0 <= j < i ==> a[j] as u32 == b[j] as u32,
    ensures
        lex_lt(a, b) == lex_lt(a.skip(i), b.skip(i)),
    decreases i,
{
    if i > 0 {
        assert(a.len() > 0 && b.len() > 0);
        assert(a[0] as u32 == b[0] as u32);
        assert(a.drop_first().skip(i - 1) =~= a.skip(i));
        assert(b.drop_first().skip(i - 1) =~= b.skip(i));
        assert(forall|j: int|
            0 <= j < i - 1 ==> a.drop_first()[j] as u32 == b.drop_first()[j] as u32);
        lemma_lex_skip(a.drop_first(), b.drop_first(), i - 1);
    } else {
        assert(a.skip(0) =~= a);
        assert(b.skip(0) =~= b);
    }
}

/// Compares two character sequences lexicographically by code point.
pub fn lex_less(a: &Vec<char>, b: &Vec<char>) -> (r: bool)
    ensures
        r == lex_lt(a@, b@),
{
    let mut i: usize = 0;
    while i < a.len() && i < b.len()
        invariant
            0 <= i <= a@.len(),
            i <= b@.len(),
            forall|j: int| 0 <= j < i ==> a@[j] as u32 == b@[j] as u32,
        decreases a@.len() - i,
    {
        let ca = a[i];
        let cb = b[i];
        if (ca as u32) < (cb as u32) {
            proof {
                lemma_lex_skip(a@, b@, i as int);
                assert(a@.skip(i as int)[0] == ca && b@.skip(i as int)[0] == cb);
            }
            return true;
        }
        if (ca as u32) > (cb as u32) {
            proof {
                lemma_lex_skip(a@, b@, i as int);
                assert(a@.skip(i as int)[0] == ca && b@.skip(i as int)[0] == cb);
            }
            return false;
        }
        proof {
            assert(ca as u32 == cb as u32);
        }
        i += 1;
    }
    proof {
        lemma_lex_skip(a@, b@, i as int);
        if i < b.len() {
            assert(a@.skip(i as int).len() == 0 && b@.skip(i as int).len() > 0);
        } else {
            assert(b@.skip(i as int).len() == 0);
        }
    }
    i < b.len()
}

/// The character sequences that a list of character vectors holds.
pub open spec fn views_of(parts: Seq<Vec<char>>) -> Seq<Seq<char>> {
    parts.map_values(|p: Vec<char>| p@)
}

/// Splits a version string at dots.
pub fn split_version(s: &str) -> (r: Vec<Vec<char>>)
    ensures
        views_of(r@) == split_dots(s@),
        r@.len() >= 1,
{
    let v = chars_vec(s);
    let mut parts: Vec<Vec<char>> = Vec::new();
    let mut cur: Vec<char> = Vec::new();
    let mut i: usize = 0;
    proof {
        assert(v@.skip(0) =~= v@);
        assert(views_of(parts@) =~= Seq::<Seq<char>>::empty());
    }
    while i < v.len()
        invariant
            0 <= i <= v@.len(),
            v@ == s@,
            split_dots(s@) == views_of(parts@) + split_at_dots(v@.skip(i as int), cur@),
        decreases v@.len() - i,
    {
        let ghost t = v@.skip(i as int);
        let ghost parts0 = views_of(parts@);
        let ghost cur0 = cur@;
        proof {
            assert(t[0] == v@[i as int]);
            assert(t.drop_first() =~= v@.skip(i as int + 1));
        }
        let c = v[i];
        if c == '.' {
            parts.push(cur);
            cur = Vec::new();
            proof {
                assert(views_of(parts@) =~= parts0.push(cur0));
                assert(parts0 + (seq![cur0] + split_at_dots(t.drop_first(), Seq::empty()))
                    =~= views_of(parts@) + split_at_dots(t.drop_first(), Seq::empty()));
            }
        } else {
            cur.push(c);
        }
        i += 1;
    }
    proof {
        assert(v@.skip(i as int) =~= Seq::<char>::empty());
    }
    let ghost parts0 = views_of(parts@);
    let ghost cur0 = cur@;
    parts.push(cur);
    proof {
        assert(views_of(parts@) =~= parts0.push(cur0));
        assert(parts0 + seq![cur0] =~= parts0.push(cur0));
        assert(views_of(parts@) == split_dots(s@));
    }
    parts
}

/// What the component-wise comparison returns: strictly larger first
/// or second components decide; everything else — including a smaller
/// or missing third component — counts as at least the target.
pub open spec fn version_ge_spec(v: Seq<char>, t: Seq<char>) -> bool {
    let pv = split_dots(v);
    let pt = split_dots(t);
    if lex_lt(pt[0], pv[0]) {
        true
    } else if lex_lt(pv[0], pt[0]) {
        false
    } else if lex_lt(pt[1], pv[1]) {
        true
    } else if lex_lt(pv[1], pt[1]) {
        false
    } else {
        true
    }
}

/// Whether `version` is at least `target`, comparing the first two
/// dot-separated components lexicographically; when those agree the
/// answer is yes, whatever follows. Both strings must contain a dot.
pub fn is_version_greater_or_equal(version: &str, target: &str) -> (r: bool)
    requires
        has_dot_spec(version@),
        has_dot_spec(target@),
    ensures
        r == version_ge_spec(version@, target@),
{
    proof {
        lemma_split_len_with_dot(version@, Seq::<char>::empty());
        lemma_split_len_with_dot(target@, Seq::<char>::empty());
    }
    let pv = split_version(version);
    let pt = split_version(target);
    proof {
        assert(pv@[0]@ == split_dots(version@)[0]);
        assert(pv@[1]@ == split_dots(version@)[1]);
        assert(pt@[0]@ == split_dots(target@)[0]);
        assert(pt@[1]@ == split_dots(target@)[1]);
    }
    if lex_less(&pt[0], &pv[0]) {
        true
    } else if lex_less(&pv[0], &pt[0]) {
        false
    } else if lex_less(&pt[1], &pv[1]) {
        true
    } else if lex_less(&pv[1], &pt[1]) {
        false
    } else {
        true
    }
}

} // verus!
