//! Grouping records by read and filtering a read's alignments.

use vstd::prelude::*;

use crate::record::AlignmentRecord;

verus! {

/// Whether one alignment survives the filter: a primary, mapped alignment
/// whose mapping quality and aligned length both reach their thresholds
/// (inclusive).
pub open spec fn spec_passes_filter(r: AlignmentRecord, min_mapq: u8, min_map_len: u32) -> bool {
    &&& !r.secondary
    &&& !r.unmapped
    &&& r.mapq >= min_mapq
    &&& r.spec_aligned_len() >= min_map_len
}

/// The subset of a cluster that survives the filter, in original relative
/// order.
pub open spec fn spec_filter(s: Seq<AlignmentRecord>, min_mapq: u8, min_map_len: u32) -> Seq<
    AlignmentRecord,
>
    decreases s.len(),
{
    if s.len() == 0 {
        Seq::empty()
    } else {
        let rest = spec_filter(s.drop_last(), min_mapq, min_map_len);
        if spec_passes_filter(s.last(), min_mapq, min_map_len) {
            rest.push(s.last())
        } else {
            rest
        }
    }
}

/// What survives a filter is never more than went in.
pub proof fn lemma_filter_len(s: Seq<AlignmentRecord>, min_mapq: u8, min_map_len: u32)
    ensures
        spec_filter(s, min_mapq, min_map_len).len() <= s.len(),
    decreases s.len(),
{
    if s.len() > 0 {
        lemma_filter_len(s.drop_last(), min_mapq, min_map_len);
    }
}

/// Copies into `cluster` the maximal contiguous run of records that starts
/// at `start` and shares the read identifier of `records[start]`, and
/// returns the index of the first record after the run.
///
/// Records of one read must stand contiguously in `records`; a caller that
/// breaks that obligation gets several clusters for one read, not an error.
/// When `start` is past the end the cluster comes back empty.
pub fn get_clusters(
    records: &Vec<AlignmentRecord>,
    start: usize,
    cluster: &mut Vec<AlignmentRecord>,
) -> (next: usize)
    requires
        start <= records@.len(),
    ensures
        start <= next <= records@.len(),
        final(cluster)@ == records@.subrange(start as int, next as int),
        start < records@.len() ==> next > start,
        start == records@.len() ==> next == start,
        forall|i: int|
            start < i < next ==> records@[i].read_id@ == records@[start as int].read_id@,
        next < records@.len() ==> records@[next as int].read_id@ != records@[
            start as int
        ].read_id@,
{
    cluster.clear();
    if start >= records.len() {
        proof {
            assert(cluster@ =~= records@.subrange(start as int, start as int));
        }
        return start;
    }
    cluster.push(records[start].clone());
    let mut next: usize = start + 1;
    proof {
        assert(cluster@ =~= records@.subrange(start as int, next as int));
    }
    while next < records.len() && records[next].read_id == records[start].read_id
        invariant
            start < next <= records@.len(),
            cluster@ == records@.subrange(start as int, next as int),
            forall|i: int|
                start < i < next ==> records@[i].read_id@ == records@[start as int].read_id@,
        decreases records@.len() - next,
    {
        cluster.push(records[next].clone());
        next = next + 1;
        proof {
            assert(cluster@ =~= records@.subrange(start as int, next as int));
        }
    }
    next
}

/// The grouping contract pins its result: any two cluster boundaries that
/// both bound a maximal same-identifier run from `start` are the same, so
/// walking the same records twice cuts the same clusters.
pub proof fn lemma_clustering_deterministic(records: Seq<AlignmentRecord>, start: int, n1: int, n2: int)
    requires
        0 <= start <= records.len(),
        start <= n1 <= records.len(),
        start <= n2 <= records.len(),
        start < records.len() ==> n1 > start && n2 > start,
        start == records.len() ==> n1 == start && n2 == start,
        forall|i: int| start < i < n1 ==> records[i].read_id@ == records[start].read_id@,
        forall|i: int| start < i < n2 ==> records[i].read_id@ == records[start].read_id@,
        n1 < records.len() ==> records[n1].read_id@ != records[start].read_id@,
        n2 < records.len() ==> records[n2].read_id@ != records[start].read_id@,
    ensures
        n1 == n2,
{
}

/// Keeps the alignments of one cluster that pass the mapping-quality and
/// aligned-length thresholds and are neither secondary nor unmapped,
/// preserving their relative order.
pub fn filter_alignments(
    all_maps: &Vec<AlignmentRecord>,
    min_mapq: u8,
    min_map_len: u32,
) -> (passed: Vec<AlignmentRecord>)
    requires
        forall|i: int| 0 <= i < all_maps@.len() ==> (#[trigger] all_maps@[i]).wf(),
    ensures
        passed@ == spec_filter(all_maps@, min_mapq, min_map_len),
{
    let mut passed: Vec<AlignmentRecord> = Vec::new();
    let mut i: usize = 0;
    while i < all_maps.len()
        invariant
            i <= all_maps@.len(),
            forall|k: int| 0 <= k < all_maps@.len() ==> (#[trigger] all_maps@[k]).wf(),
            passed@ == spec_filter(all_maps@.take(i as int), min_mapq, min_map_len),
        decreases all_maps@.len() - i,
    {
        let r = &all_maps[i];
        if !r.secondary && !r.unmapped && r.mapq >= min_mapq && r.query_end - r.query_start
            >= min_map_len {
            passed.push(r.clone());
        }
        i = i + 1;
        proof {
            assert(all_maps@.take(i as int).drop_last() =~= all_maps@.take(i - 1));
            assert(all_maps@.take(i as int).last() == all_maps@[i - 1]);
        }
    }
    proof {
        assert(all_maps@.take(all_maps@.len() as int) =~= all_maps@);
    }
    passed
}

} // verus!
