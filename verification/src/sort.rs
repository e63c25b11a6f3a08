//! Sorting a cluster by each alignment's start position in read
//! coordinates.
//!
//! The order is pinned exactly: [`spec_sort`] is a stable insertion sort in
//! spec land, and the executable sort returns precisely that sequence, so
//! two runs over the same cluster order their alignments — and hence their
//! breakpoints — identically.

use vstd::prelude::*;

use crate::record::AlignmentRecord;

verus! {

/// Ascending by the alignment's start position in read coordinates.
pub open spec fn sorted_by_query_start(s: Seq<AlignmentRecord>) -> bool {
    forall|i: int, j: int| 0 <= i < j < s.len() ==> s[i].query_start <= s[j].query_start
}

/// Stable insertion of one record into a run: it lands after every record
/// whose key is at most its own.
pub open spec fn spec_insert_sorted(s: Seq<AlignmentRecord>, x: AlignmentRecord) -> Seq<
    AlignmentRecord,
>
    decreases s.len(),
{
    if s.len() == 0 {
        seq![x]
    } else if s.last().query_start > x.query_start {
        spec_insert_sorted(s.drop_last(), x).push(s.last())
    } else {
        s.push(x)
    }
}

/// The stable insertion sort: each record in turn is inserted after every
/// record with a key at most its own, so records with equal keys keep their
/// original relative order.
pub open spec fn spec_sort(s: Seq<AlignmentRecord>) -> Seq<AlignmentRecord>
    decreases s.len(),
{
    if s.len() == 0 {
        Seq::empty()
    } else {
        spec_insert_sorted(spec_sort(s.drop_last()), s.last())
    }
}

/// A stable insertion is the same as splitting the run at the first index
/// from which every key exceeds the new record's key.
proof fn lemma_insert_at(s: Seq<AlignmentRecord>, x: AlignmentRecord, j: int)
    requires
        0 <= j <= s.len(),
        forall|k: int| j <= k < s.len() ==> s[k].query_start > x.query_start,
        j > 0 ==> s[j - 1].query_start <= x.query_start,
    ensures
        spec_insert_sorted(s, x) == s.insert(j, x),
    decreases s.len(),
{
    if s.len() == 0 {
        assert(spec_insert_sorted(s, x) =~= s.insert(j, x));
    } else if j == s.len() {
        assert(s.last().query_start <= x.query_start);
        assert(spec_insert_sorted(s, x) == s.push(x));
        assert(s.push(x) =~= s.insert(j, x));
    } else {
        let d = s.drop_last();
        assert(s.last().query_start > x.query_start);
        lemma_insert_at(d, x, j);
        assert(spec_insert_sorted(s, x) == spec_insert_sorted(d, x).push(s.last()));
        assert(d.insert(j, x).push(s.last()) =~= s.insert(j, x));
    }
}

/// A stable insertion into a sorted run keeps it sorted, adds the new
/// record to its contents, and grows it by one.
pub proof fn lemma_insert_sorted_props(s: Seq<AlignmentRecord>, x: AlignmentRecord)
    requires
        sorted_by_query_start(s),
    ensures
        sorted_by_query_start(spec_insert_sorted(s, x)),
        spec_insert_sorted(s, x).to_multiset() == s.to_multiset().insert(x),
        spec_insert_sorted(s, x).len() == s.len() + 1,
    decreases s.len(),
{
    broadcast use vstd::seq_lib::group_to_multiset_ensures;

    if s.len() == 0 {
        assert(spec_insert_sorted(s, x) == Seq::empty().push(x));
        assert(s.to_multiset() =~= Seq::<AlignmentRecord>::empty().to_multiset());
        assert(Seq::<AlignmentRecord>::empty().push(x).to_multiset() =~= s.to_multiset().insert(
            x,
        ));
    } else if s.last().query_start > x.query_start {
        let d = s.drop_last();
        assert(sorted_by_query_start(d)) by {
            assert(forall|i: int, j: int|
                0 <= i < j < d.len() ==> d[i] == s[i] && d[j] == s[j]);
        }
        lemma_insert_sorted_props(d, x);
        let t = spec_insert_sorted(d, x);
        assert(spec_insert_sorted(s, x) == t.push(s.last()));
        // every record in the inserted run is either x or from d, so its key
        // is at most the last record's key
        assert(forall|i: int|
            0 <= i < t.len() ==> #[trigger] t.to_multiset().count(t[i]) > 0 && t.contains(t[i]));
        assert(forall|i: int|
            0 <= i < t.len() ==> (#[trigger] t[i]).query_start <= s.last().query_start) by {
            assert(forall|i: int| 0 <= i < t.len() ==> t.to_multiset().count(#[trigger] t[i]) > 0);
            assert(forall|r: AlignmentRecord|
                t.to_multiset().count(r) > 0 ==> d.to_multiset().insert(x).count(r) > 0);
            assert(forall|r: AlignmentRecord|
                d.to_multiset().count(r) > 0 ==> d.contains(r));
            assert(forall|i: int|
                0 <= i < d.len() ==> (#[trigger] d[i]).query_start <= s.last().query_start);
        }
        assert(sorted_by_query_start(t.push(s.last()))) by {
            assert(forall|i: int|
                0 <= i < t.len() ==> #[trigger] t.push(s.last())[i] == t[i]);
        }
        assert(t.push(s.last()).to_multiset() =~= s.to_multiset().insert(x)) by {
            assert(t.to_multiset() == d.to_multiset().insert(x));
            assert(d.push(s.last()).to_multiset() =~= d.to_multiset().insert(s.last()));
            assert(d.push(s.last()) =~= s);
        }
    } else {
        assert(spec_insert_sorted(s, x) == s.push(x));
        assert(sorted_by_query_start(s.push(x))) by {
            assert(forall|i: int| 0 <= i < s.len() ==> #[trigger] s.push(x)[i] == s[i]);
            assert(forall|i: int|
                0 <= i < s.len() ==> (#[trigger] s[i]).query_start <= s.last().query_start);
        }
    }
}

/// The spec sort really sorts: its result is ordered by key and holds
/// exactly the records that went in.
pub proof fn lemma_sort_props(s: Seq<AlignmentRecord>)
    ensures
        sorted_by_query_start(spec_sort(s)),
        spec_sort(s).to_multiset() == s.to_multiset(),
        spec_sort(s).len() == s.len(),
    decreases s.len(),
{
    broadcast use vstd::seq_lib::group_to_multiset_ensures;

    if s.len() == 0 {
    } else {
        let d = s.drop_last();
        lemma_sort_props(d);
        lemma_insert_sorted_props(spec_sort(d), s.last());
        assert(d.push(s.last()) =~= s);
        assert(spec_sort(s).to_multiset() =~= s.to_multiset()) by {
            assert(spec_sort(s).to_multiset() == spec_sort(d).to_multiset().insert(s.last()));
            assert(d.push(s.last()).to_multiset() =~= d.to_multiset().insert(s.last()));
        }
    }
}

/// Inserts one record into a sorted vector at its stable position.
fn insert_by_query_start(out: &mut Vec<AlignmentRecord>, x: AlignmentRecord)
    ensures
        final(out)@ == spec_insert_sorted(old(out)@, x),
{
    let mut j: usize = out.len();
    while j > 0 && out[j - 1].query_start > x.query_start
        invariant
            j <= out@.len(),
            out@ == old(out)@,
            forall|k: int| j <= k < out@.len() ==> out@[k].query_start > x.query_start,
        decreases j,
    {
        j = j - 1;
    }
    proof {
        lemma_insert_at(out@, x, j as int);
    }
    out.insert(j, x);
}

/// Sorts a cluster ascending by start position in read coordinates, with
/// the stable order pinned by [`spec_sort`].
pub fn sort_by_query_start(v: &mut Vec<AlignmentRecord>)
    ensures
        final(v)@ == spec_sort(old(v)@),
        sorted_by_query_start(final(v)@),
        final(v)@.to_multiset() == old(v)@.to_multiset(),
        final(v)@.len() == old(v)@.len(),
{
    let mut out: Vec<AlignmentRecord> = Vec::new();
    let mut i: usize = 0;
    while i < v.len()
        invariant
            i <= v@.len(),
            v@ == old(v)@,
            out@ == spec_sort(v@.take(i as int)),
        decreases v@.len() - i,
    {
        let x = v[i].clone();
        insert_by_query_start(&mut out, x);
        i = i + 1;
        proof {
            assert(v@.take(i as int).drop_last() =~= v@.take(i - 1));
            assert(v@.take(i as int).last() == v@[i - 1]);
        }
    }
    proof {
        assert(v@.take(v@.len() as int) =~= v@);
        lemma_sort_props(old(v)@);
    }
    *v = out;
}

} // verus!
