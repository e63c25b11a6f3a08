//! The per-read pipeline: filter, sort, derive, classify, count.
//!
//! [`process_cluster`] is everything one read's cluster does to a run.  Its
//! whole outcome — the breakpoints and every counter — is pinned by
//! [`spec_cluster_outcome`] as a function of the cluster, the configuration
//! and the counters going in, which is what makes a run reproducible.

use vstd::prelude::*;

use crate::breakpoint::{Breakpoint, Label, spec_label_index};
use crate::breaks::{determine_break, spec_breaks, spec_count_label, spec_read_label_of};
use crate::cluster::{filter_alignments, lemma_filter_len, spec_filter};
use crate::config::Config;
use crate::record::AlignmentRecord;
use crate::sort::{sort_by_query_start, spec_sort};

verus! {

/// The breakpoints one cluster contributes: the alignments that survive the
/// filter, sorted by start position in read coordinates, derived pairwise —
/// or nothing when fewer than two survive.
pub open spec fn spec_cluster_breaks(cluster: Seq<AlignmentRecord>, cfg: Config) -> Seq<
    Breakpoint,
> {
    let kept = spec_filter(cluster, cfg.min_mapq, cfg.min_map_len);
    if kept.len() >= 2 {
        spec_breaks(spec_sort(kept), cfg)
    } else {
        Seq::empty()
    }
}

/// Everything processing one cluster does to a run's state: the breakpoints
/// produced, the reads-passed-filter count, the three read counters and the
/// three breakpoint counters after, as a function of the cluster, the
/// configuration and the state before.
pub open spec fn spec_cluster_outcome(
    cluster: Seq<AlignmentRecord>,
    cfg: Config,
    pass0: u64,
    reads0: Seq<u64>,
    breaks0: Seq<u64>,
    out: Seq<Breakpoint>,
    pass1: u64,
    reads1: Seq<u64>,
    breaks1: Seq<u64>,
) -> bool {
    let kept = spec_filter(cluster, cfg.min_mapq, cfg.min_map_len);
    let bps = spec_cluster_breaks(cluster, cfg);
    &&& out == bps
    &&& pass1 == pass0 + if kept.len() > 0 {
        1int
    } else {
        0int
    }
    &&& breaks1.len() == 3
    &&& breaks1[0] == breaks0[0] + spec_count_label(bps, Label::Foldback)
    &&& breaks1[1] == breaks0[1] + spec_count_label(bps, Label::Chimeric)
    &&& breaks1[2] == breaks0[2] + spec_count_label(bps, Label::Pass)
    &&& reads1 == if kept.len() >= 2 {
        reads0.update(
            spec_label_index(spec_read_label_of(bps)),
            (reads0[spec_label_index(spec_read_label_of(bps))] + 1) as u64,
        )
    } else {
        reads0
    }
}

/// Runs one read's cluster through the whole pipeline.
///
/// An empty or filtered-to-empty cluster is not an error: it is skipped and
/// contributes zero to every counter.  A cluster with one surviving
/// alignment counts toward `reads_pass_filter` and nothing else.
pub fn process_cluster(
    cluster: &Vec<AlignmentRecord>,
    config: &Config,
    reads_pass_filter: &mut u64,
    read_counts: &mut Vec<u64>,
    break_counts: &mut Vec<u64>,
) -> (out: Vec<Breakpoint>)
    requires
        cluster@.len() <= u32::MAX,
        forall|i: int| 0 <= i < cluster@.len() ==> (#[trigger] cluster@[i]).wf(),
        config.wf(),
        *old(reads_pass_filter) < u64::MAX,
        old(read_counts)@.len() == 3,
        old(break_counts)@.len() == 3,
        forall|j: int| 0 <= j < 3 ==> old(read_counts)@[j] < u64::MAX,
        forall|j: int| 0 <= j < 3 ==> old(break_counts)@[j] + cluster@.len() <= u64::MAX,
    ensures
        spec_cluster_outcome(
            cluster@,
            *config,
            *old(reads_pass_filter),
            old(read_counts)@,
            old(break_counts)@,
            out@,
            *final(reads_pass_filter),
            final(read_counts)@,
            final(break_counts)@,
        ),
{
    let mut filtered = filter_alignments(cluster, config.min_mapq, config.min_map_len);
    proof {
        lemma_filter_len(cluster@, config.min_mapq, config.min_map_len);
    }
    if filtered.len() > 0 {
        *reads_pass_filter = *reads_pass_filter + 1;
    }
    if filtered.len() > 1 {
        sort_by_query_start(&mut filtered);
        determine_break(&filtered, config, read_counts, break_counts)
    } else {
        Vec::new()
    }
}

/// Re-running on identical input and configuration reproduces identical
/// breakpoints, in the same order, and identical counters: the outcome of
/// one cluster is a function of the cluster, the configuration and the
/// counters going in, so two runs that start alike end alike.
pub proof fn lemma_run_deterministic(
    cluster: Seq<AlignmentRecord>,
    cfg: Config,
    pass0: u64,
    reads0: Seq<u64>,
    breaks0: Seq<u64>,
    out_a: Seq<Breakpoint>,
    pass_a: u64,
    reads_a: Seq<u64>,
    breaks_a: Seq<u64>,
    out_b: Seq<Breakpoint>,
    pass_b: u64,
    reads_b: Seq<u64>,
    breaks_b: Seq<u64>,
)
    requires
        breaks0.len() == 3,
        spec_cluster_outcome(
            cluster,
            cfg,
            pass0,
            reads0,
            breaks0,
            out_a,
            pass_a,
            reads_a,
            breaks_a,
        ),
        spec_cluster_outcome(
            cluster,
            cfg,
            pass0,
            reads0,
            breaks0,
            out_b,
            pass_b,
            reads_b,
            breaks_b,
        ),
    ensures
        out_a == out_b,
        pass_a == pass_b,
        reads_a == reads_b,
        breaks_a == breaks_b,
{
    assert(breaks_a =~= breaks_b);
}

} // verus!
