//! Merging the two output streams in time order.
//!
//! The fragments of standard output and of standard error are put into one
//! sequence by capture time. The sort is stable on the concatenation of the
//! two: among fragments with the same time those of standard output come
//! first, and within each stream the order of capture is kept. The true
//! order of two reads that carry the same time is not known; this is a rule
//! to settle it, not a finding.

use vstd::prelude::*;
use crate::logline::{Fragment, LogLine};
use crate::timestamp::Timestamp;

verus! {

/// The times of `s` never go back.
pub open spec fn ordered(s: Seq<Fragment>) -> bool {
    forall|i: int, j: int|
        #![trigger s[i], s[j]]
        0 <= i <= j < s.len() ==> s[i].time.not_after(s[j].time)
}

/// The test for a fragment captured at `t`.
pub open spec fn at(t: Timestamp) -> spec_fn(Fragment) -> bool {
    |f: Fragment| f.time == t
}

/// `out` holds the fragments of `input` in time order, those of one time in
/// the order they have in `input`.
pub open spec fn is_stable_sort_of(out: Seq<Fragment>, input: Seq<Fragment>) -> bool {
    &&& ordered(out)
    &&& forall|t: Timestamp| #[trigger] out.filter(at(t)) == input.filter(at(t))
}

/// `x` put into `s` in front of the first fragment that is not earlier
/// than `x`.
pub open spec fn insert_in_order(x: Fragment, s: Seq<Fragment>) -> Seq<Fragment>
    decreases s.len(),
{
    if s.len() == 0 || x.time.not_after(s[0].time) {
        seq![x] + s
    } else {
        seq![s[0]] + insert_in_order(x, s.drop_first())
    }
}

/// The fragments of `s` in time order, those of one time in the order they
/// have in `s`.
pub open spec fn sorted_by_time(s: Seq<Fragment>) -> Seq<Fragment>
    decreases s.len(),
{
    if s.len() == 0 {
        s
    } else {
        insert_in_order(s[0], sorted_by_time(s.drop_first()))
    }
}

/// The transcript of two streams: the stable sort by time of the fragments
/// of standard output followed by those of standard error.
pub open spec fn merged(stdout: Seq<Fragment>, stderr: Seq<Fragment>) -> Seq<Fragment> {
    sorted_by_time(stdout + stderr)
}

/// `a` and `b` wound into one sequence: at each step the earlier of the two
/// front fragments is taken, and that of `a` when they carry the same time.
pub open spec fn interleaved(a: Seq<Fragment>, b: Seq<Fragment>) -> Seq<Fragment>
    decreases a.len() + b.len(),
{
    if a.len() == 0 {
        b
    } else if b.len() == 0 {
        a
    } else if a[0].time.not_after(b[0].time) {
        seq![a[0]] + interleaved(a.drop_first(), b)
    } else {
        seq![b[0]] + interleaved(a, b.drop_first())
    }
}

proof fn lemma_insert_in_order_shape(x: Fragment, s: Seq<Fragment>)
    ensures
        insert_in_order(x, s).len() == s.len() + 1,
        insert_in_order(x, s)[0] == (if s.len() == 0 || x.time.not_after(s[0].time) {
            x
        } else {
            s[0]
        }),
    decreases s.len(),
{
    if !(s.len() == 0 || x.time.not_after(s[0].time)) {
        lemma_insert_in_order_shape(x, s.drop_first());
    }
}

proof fn lemma_insert_in_order_ordered(x: Fragment, s: Seq<Fragment>)
    requires
        ordered(s),
    ensures
        ordered(insert_in_order(x, s)),
    decreases s.len(),
{
    if !(s.len() == 0 || x.time.not_after(s[0].time)) {
        let rest = s.drop_first();
        assert(ordered(rest));
        lemma_insert_in_order_ordered(x, rest);
        lemma_insert_in_order_shape(x, rest);
    }
}

proof fn lemma_insert_in_order_filter(x: Fragment, s: Seq<Fragment>, t: Timestamp)
    ensures
        insert_in_order(x, s).filter(at(t)) == (seq![x] + s).filter(at(t)),
    decreases s.len(),
{
    if !(s.len() == 0 || x.time.not_after(s[0].time)) {
        let rest = s.drop_first();
        lemma_insert_in_order_filter(x, rest, t);
        rest.lemma_filter_prepend(s[0], at(t));
        s.lemma_filter_prepend(x, at(t));
        assert(seq![s[0]] + rest =~= s);
    }
}

/// Sorting by time keeps the number of fragments.
pub proof fn lemma_sorted_by_time_len(s: Seq<Fragment>)
    ensures
        sorted_by_time(s).len() == s.len(),
    decreases s.len(),
{
    if s.len() > 0 {
        lemma_sorted_by_time_len(s.drop_first());
        lemma_insert_in_order_shape(s[0], sorted_by_time(s.drop_first()));
    }
}

/// In the sorted sequence the times never go back.
pub proof fn lemma_sorted_by_time_ordered(s: Seq<Fragment>)
    ensures
        ordered(sorted_by_time(s)),
    decreases s.len(),
{
    if s.len() > 0 {
        lemma_sorted_by_time_ordered(s.drop_first());
        lemma_insert_in_order_ordered(s[0], sorted_by_time(s.drop_first()));
    }
}

/// Sorting is stable: the fragments captured at any one time come out in
/// the order in which they went in.
pub proof fn lemma_sorted_by_time_stable(s: Seq<Fragment>, t: Timestamp)
    ensures
        sorted_by_time(s).filter(at(t)) == s.filter(at(t)),
    decreases s.len(),
{
    if s.len() > 0 {
        let rest = s.drop_first();
        lemma_sorted_by_time_stable(rest, t);
        lemma_insert_in_order_filter(s[0], sorted_by_time(rest), t);
        sorted_by_time(rest).lemma_filter_prepend(s[0], at(t));
        assert(seq![s[0]] + rest =~= s);
    }
}

/// Sorting loses and adds nothing: the result holds each fragment as often
/// as the input does.
pub proof fn lemma_sorted_by_time_permutes(s: Seq<Fragment>)
    ensures
        sorted_by_time(s).to_multiset() == s.to_multiset(),
    decreases s.len(),
{
    if s.len() > 0 {
        let rest = s.drop_first();
        lemma_sorted_by_time_permutes(rest);
        lemma_insert_in_order_permutes(s[0], sorted_by_time(rest));
        vstd::seq_lib::lemma_multiset_commutative(seq![s[0]], sorted_by_time(rest));
        vstd::seq_lib::lemma_multiset_commutative(seq![s[0]], rest);
        assert(seq![s[0]] + rest =~= s);
    }
}

proof fn lemma_insert_in_order_permutes(x: Fragment, s: Seq<Fragment>)
    ensures
        insert_in_order(x, s).to_multiset() == (seq![x] + s).to_multiset(),
    decreases s.len(),
{
    if !(s.len() == 0 || x.time.not_after(s[0].time)) {
        let rest = s.drop_first();
        let tail = insert_in_order(x, rest);
        lemma_insert_in_order_permutes(x, rest);
        vstd::seq_lib::lemma_multiset_commutative(seq![s[0]], tail);
        vstd::seq_lib::lemma_multiset_commutative(seq![x], rest);
        vstd::seq_lib::lemma_multiset_commutative(seq![s[0]], rest);
        vstd::seq_lib::lemma_multiset_commutative(seq![x], s);
        assert(seq![s[0]] + rest =~= s);
    }
}

/// The sorted sequence is a stable sort of the input.
pub proof fn lemma_sorted_by_time_is_stable_sort(s: Seq<Fragment>)
    ensures
        is_stable_sort_of(sorted_by_time(s), s),
{
    lemma_sorted_by_time_ordered(s);
    assert forall|t: Timestamp| #[trigger]
        sorted_by_time(s).filter(at(t)) == s.filter(at(t)) by {
        lemma_sorted_by_time_stable(s, t);
    }
}

proof fn lemma_filter_of_last(s: Seq<Fragment>, t: Timestamp)
    requires
        s.len() > 0,
    ensures
        s.filter(at(t)) == (if s.last().time == t {
            s.drop_last().filter(at(t)).push(s.last())
        } else {
            s.drop_last().filter(at(t))
        }),
{
    reveal(Seq::filter);
}

proof fn lemma_filtered_is_member(s: Seq<Fragment>, t: Timestamp)
    requires
        s.filter(at(t)).len() > 0,
    ensures
        exists|i: int| 0 <= i < s.len() && #[trigger] s[i].time == t,
    decreases s.len(),
{
    reveal(Seq::filter);
    if s.len() > 0 && s.last().time != t {
        lemma_filtered_is_member(s.drop_last(), t);
        let i = choose|i: int| 0 <= i < s.drop_last().len() && #[trigger] s.drop_last()[i].time
            == t;
        assert(s[i].time == t);
    }
}

/// Two sequences in time order that hold, for every time, the same
/// fragments of that time in the same order are one and the same.
pub proof fn lemma_ordered_unique(a: Seq<Fragment>, b: Seq<Fragment>)
    requires
        ordered(a),
        ordered(b),
        forall|t: Timestamp| #[trigger] a.filter(at(t)) == b.filter(at(t)),
    ensures
        a == b,
    decreases a.len() + b.len(),
{
    if a.len() == 0 || b.len() == 0 {
        // The longer one would hold a fragment of the time of its last, and
        // the other none.
        let long = if a.len() == 0 {
            b
        } else {
            a
        };
        if long.len() > 0 {
            let t = long.last().time;
            assert(a.filter(at(t)) == b.filter(at(t)));
            reveal(Seq::filter);
        }
    } else {
        // Both end at the same time: each holds a fragment of the time of
        // the other's last, and none that is later than its own last.
        let ta = a.last().time;
        let tb = b.last().time;
        lemma_filter_of_last(a, ta);
        lemma_filter_of_last(b, tb);
        lemma_filtered_is_member(b, ta);
        lemma_filtered_is_member(a, tb);
        let i = choose|i: int| 0 <= i < b.len() && #[trigger] b[i].time == ta;
        let j = choose|j: int| 0 <= j < a.len() && #[trigger] a[j].time == tb;
        assert(b[i].time.not_after(b.last().time));
        assert(a[j].time.not_after(a.last().time));
        assert(ta == tb);
        // So they end with the same fragment, and what is in front of it
        // agrees time by time as well.
        let fa = a.drop_last().filter(at(ta));
        let fb = b.drop_last().filter(at(ta));
        assert(fa.push(a.last()) == fb.push(b.last()));
        assert(fa.push(a.last()).last() == a.last());
        assert(fb.push(b.last()).last() == b.last());
        assert(fa.push(a.last()).drop_last() =~= fa);
        assert(fb.push(b.last()).drop_last() =~= fb);
        let a0 = a.drop_last();
        let b0 = b.drop_last();
        assert forall|t: Timestamp| #[trigger] a0.filter(at(t)) == b0.filter(at(t)) by {
            lemma_filter_of_last(a, t);
            lemma_filter_of_last(b, t);
        }
        assert(ordered(a0));
        assert(ordered(b0));
        lemma_ordered_unique(a0, b0);
        assert(a =~= a0.push(a.last()));
        assert(b =~= b0.push(b.last()));
    }
}

/// There is one stable sort only: whatever is a stable sort of `s` is
/// `sorted_by_time(s)`.
pub proof fn lemma_stable_sort_unique(out: Seq<Fragment>, s: Seq<Fragment>)
    requires
        is_stable_sort_of(out, s),
    ensures
        out == sorted_by_time(s),
{
    lemma_sorted_by_time_is_stable_sort(s);
    lemma_ordered_unique(out, sorted_by_time(s));
}

/// A sequence that is in time order already is left as it is.
pub proof fn lemma_sorted_by_time_of_ordered(s: Seq<Fragment>)
    requires
        ordered(s),
    ensures
        sorted_by_time(s) == s,
{
    lemma_stable_sort_unique(s, s);
}

/// Sorting twice is sorting once.
pub proof fn lemma_sorted_by_time_idempotent(s: Seq<Fragment>)
    ensures
        sorted_by_time(sorted_by_time(s)) == sorted_by_time(s),
{
    lemma_sorted_by_time_ordered(s);
    lemma_sorted_by_time_of_ordered(sorted_by_time(s));
}

proof fn lemma_insert_in_order_interleaved(x: Fragment, a: Seq<Fragment>, b: Seq<Fragment>)
    ensures
        insert_in_order(x, interleaved(a, b)) == interleaved(insert_in_order(x, a), b),
    decreases a.len() + b.len(),
{
    let m = interleaved(a, b);
    let xa = insert_in_order(x, a);
    if m.len() == 0 {
        // Nothing to wind: `x` stands alone on both sides.
    } else if x.time.not_after(m[0].time) {
        // `x` goes in front of all of `a` and of `b`.
        assert(xa.drop_first() =~= a);
    } else if b.len() == 0 {
        // `m` is `a`.
    } else if a.len() > 0 && a[0].time.not_after(b[0].time) {
        // `m` begins with the first of `a`, and `x` goes behind it.
        let a1 = a.drop_first();
        assert(m.drop_first() =~= interleaved(a1, b));
        lemma_insert_in_order_interleaved(x, a1, b);
        assert(xa.drop_first() =~= insert_in_order(x, a1));
    } else {
        // `m` begins with the first of `b`, which is earlier than `x` and
        // than all that `x` is put into.
        let b1 = b.drop_first();
        lemma_insert_in_order_interleaved(x, a, b1);
        if a.len() > 0 {
            assert(m.drop_first() =~= interleaved(a, b1));
        }
    }
}

/// Sorting two sequences apart and winding the results into one gives the
/// same as sorting the first followed by the second.
pub proof fn lemma_sorted_by_time_add(a: Seq<Fragment>, b: Seq<Fragment>)
    ensures
        sorted_by_time(a + b) == interleaved(sorted_by_time(a), sorted_by_time(b)),
    decreases a.len(),
{
    if a.len() > 0 {
        let rest = a.drop_first();
        lemma_sorted_by_time_add(rest, b);
        assert((a + b).drop_first() =~= rest + b);
        lemma_insert_in_order_interleaved(a[0], sorted_by_time(rest), sorted_by_time(b));
    }
}

/// The transcript is in time order, and for every time it holds the
/// fragments that standard output has of that time, in their order, and
/// then those that standard error has, in theirs.
pub proof fn lemma_merged_is_stable(stdout: Seq<Fragment>, stderr: Seq<Fragment>)
    ensures
        ordered(merged(stdout, stderr)),
        is_stable_sort_of(merged(stdout, stderr), stdout + stderr),
        forall|t: Timestamp| #[trigger]
            merged(stdout, stderr).filter(at(t)) == stdout.filter(at(t)) + stderr.filter(at(t)),
        merged(stdout, stderr).to_multiset() == stdout.to_multiset().add(stderr.to_multiset()),
        merged(stdout, stderr).len() == stdout.len() + stderr.len(),
{
    lemma_sorted_by_time_is_stable_sort(stdout + stderr);
    lemma_sorted_by_time_permutes(stdout + stderr);
    lemma_sorted_by_time_len(stdout + stderr);
    vstd::seq_lib::lemma_multiset_commutative(stdout, stderr);
}

/// Winds two sequences into one: at each step the earlier of the two front
/// fragments is taken, and that of `a` when they carry the same time.
pub fn interleave(a: &[LogLine], b: &[LogLine]) -> (out: Vec<LogLine>)
    ensures
        out.deep_view() == interleaved(a.deep_view(), b.deep_view()),
{
    let ghost sa = a.deep_view();
    let ghost sb = b.deep_view();
    let mut out: Vec<LogLine> = Vec::new();
    let mut i: usize = 0;
    let mut j: usize = 0;
    proof {
        assert(sa.skip(0) =~= sa);
        assert(sb.skip(0) =~= sb);
    }
    // What is out already, followed by what the rest of `a` and the rest of
    // `b` wind into, is the whole.
    while i < a.len() || j < b.len()
        invariant
            i <= a.len(),
            j <= b.len(),
            sa == a.deep_view(),
            sb == b.deep_view(),
            out.deep_view() + interleaved(sa.skip(i as int), sb.skip(j as int)) == interleaved(
                sa,
                sb,
            ),
        decreases a.len() - i + b.len() - j,
    {
        let ghost ra = sa.skip(i as int);
        let ghost rb = sb.skip(j as int);
        let from_a = j >= b.len() || (i < a.len() && a[i].timestamp.is_not_after(&b[j].timestamp));
        if from_a {
            let line = a[i].clone();
            out.push(line);
            proof {
                assert(ra.drop_first() =~= sa.skip(i + 1));
            }
            i += 1;
        } else {
            let line = b[j].clone();
            out.push(line);
            proof {
                assert(rb.drop_first() =~= sb.skip(j + 1));
            }
            j += 1;
        }
    }
    out
}

/// Sorts the fragments `lines[lo..hi]` by time, by halving and winding the
/// sorted halves into one.
fn sort_range(lines: &[LogLine], lo: usize, hi: usize) -> (sorted: Vec<LogLine>)
    requires
        lo <= hi <= lines.len(),
    ensures
        sorted.deep_view() == sorted_by_time(lines.deep_view().subrange(lo as int, hi as int)),
    decreases hi - lo,
{
    let ghost part = lines.deep_view().subrange(lo as int, hi as int);
    if hi - lo <= 1 {
        let mut sorted: Vec<LogLine> = Vec::new();
        if lo < hi {
            sorted.push(lines[lo].clone());
            proof {
                assert(sorted_by_time(part.drop_first()) =~= Seq::<Fragment>::empty());
            }
        }
        sorted
    } else {
        let mid: usize = lo + (hi - lo) / 2;
        let left = sort_range(lines, lo, mid);
        let right = sort_range(lines, mid, hi);
        proof {
            let first = lines.deep_view().subrange(lo as int, mid as int);
            let second = lines.deep_view().subrange(mid as int, hi as int);
            assert(first + second =~= part);
            lemma_sorted_by_time_add(first, second);
        }
        interleave(left.as_slice(), right.as_slice())
    }
}

/// Sorts fragments by time. The sort is stable: fragments of one time keep
/// the order they came in.
pub fn sort_by_time(lines: &[LogLine]) -> (sorted: Vec<LogLine>)
    ensures
        sorted.deep_view() == sorted_by_time(lines.deep_view()),
        is_stable_sort_of(sorted.deep_view(), lines.deep_view()),
{
    proof {
        assert(lines.deep_view().subrange(0, lines.len() as int) =~= lines.deep_view());
        lemma_sorted_by_time_is_stable_sort(lines.deep_view());
    }
    sort_range(lines, 0, lines.len())
}

/// Merges the fragments of the two streams into one transcript in time
/// order.
///
/// The result is the stable sort by time of `stdout` followed by `stderr`:
/// its times never go back, nothing is lost or added, each stream keeps its
/// own order among fragments of one time, and of two fragments with the
/// same time that of `stdout` comes first.
pub fn merge_streams(stdout: &[LogLine], stderr: &[LogLine]) -> (result: Vec<LogLine>)
    ensures
        result.deep_view() == merged(stdout.deep_view(), stderr.deep_view()),
        ordered(result.deep_view()),
        forall|t: Timestamp| #[trigger]
            result.deep_view().filter(at(t)) == stdout.deep_view().filter(at(t))
                + stderr.deep_view().filter(at(t)),
        result.len() == stdout.len() + stderr.len(),
{
    let first = sort_by_time(stdout);
    let second = sort_by_time(stderr);
    proof {
        lemma_sorted_by_time_add(stdout.deep_view(), stderr.deep_view());
        lemma_merged_is_stable(stdout.deep_view(), stderr.deep_view());
    }
    interleave(first.as_slice(), second.as_slice())
}

/// Merges two log streams and sorts the contents: `merge_streams` for
/// streams that are handed over whole.
pub fn join_and_sort(stdout: Vec<LogLine>, stderr: Vec<LogLine>) -> (result: Vec<LogLine>)
    ensures
        result.deep_view() == merged(stdout.deep_view(), stderr.deep_view()),
        ordered(result.deep_view()),
        forall|t: Timestamp| #[trigger]
            result.deep_view().filter(at(t)) == stdout.deep_view().filter(at(t))
                + stderr.deep_view().filter(at(t)),
        result.len() == stdout.len() + stderr.len(),
{
    merge_streams(stdout.as_slice(), stderr.as_slice())
}

} // verus!
