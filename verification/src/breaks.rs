//! Deriving breakpoints from a filtered, sorted cluster.
//!
//! A cluster of `N >= 2` alignments, sorted ascending by start position in
//! read coordinates, yields exactly `N - 1` breakpoints, one per adjacent
//! pair, each labelled on the spot; the run-wide breakpoint counters and
//! one read counter are updated alongside.

use vstd::prelude::*;

use crate::breakpoint::{Breakpoint, Label, spec_label_index};
use crate::classify::{classify_break, read_level_class, spec_classify, spec_read_label};
use crate::config::Config;
use crate::record::{AlignmentRecord, Strand};
use crate::sort::sorted_by_query_start;

verus! {

/// The smaller of the two contributing mapping qualities.
pub open spec fn spec_min_mapq(a: u8, b: u8) -> u8 {
    if a <= b {
        a
    } else {
        b
    }
}

/// The unlabelled breakpoint of one adjacent alignment pair, `a` earlier in
/// the read than `b`.
///
/// Coordinate and direction per side: the read-earlier side takes the
/// reference end on the forward strand (`'>'`) and the reference start on
/// the reverse strand (`'<'`); the read-later side takes the reference
/// start on the forward strand and the reference end on the reverse
/// strand.  The breakpoint's mapping quality is the minimum of the two
/// alignments' and its read coordinates bound the split point.
pub open spec fn spec_breakpoint_raw(
    a: AlignmentRecord,
    b: AlignmentRecord,
    read_len: u32,
) -> Breakpoint {
    Breakpoint {
        b1_chr: a.ref_name,
        b1_loc: if a.strand is Forward {
            a.ref_end
        } else {
            a.ref_start
        },
        dir1: if a.strand is Forward {
            '>'
        } else {
            '<'
        },
        dir2: if b.strand is Forward {
            '>'
        } else {
            '<'
        },
        b2_chr: b.ref_name,
        b2_loc: if b.strand is Forward {
            b.ref_start
        } else {
            b.ref_end
        },
        mapq: spec_min_mapq(a.mapq, b.mapq),
        read_id: a.read_id,
        read_len: read_len,
        label: None,
        r1_loc: a.query_end,
        r2_loc: b.query_start,
    }
}

/// The labelled breakpoint of one adjacent alignment pair.
pub open spec fn spec_breakpoint(
    a: AlignmentRecord,
    b: AlignmentRecord,
    read_len: u32,
    cfg: Config,
) -> Breakpoint {
    let raw = spec_breakpoint_raw(a, b, read_len);
    Breakpoint { label: Some(spec_classify(raw, cfg)), ..raw }
}

/// All breakpoints of a sorted cluster, one per adjacent pair, in order.
/// The full read length is taken once, from the cluster's first record.
pub open spec fn spec_breaks(s: Seq<AlignmentRecord>, cfg: Config) -> Seq<Breakpoint>
    recommends
        s.len() >= 1,
{
    Seq::new((s.len() - 1) as nat, |i: int| spec_breakpoint(s[i], s[i + 1], s[0].read_len, cfg))
}

/// How many breakpoints of a run carry a given label.
pub open spec fn spec_count_label(bps: Seq<Breakpoint>, label: Label) -> int
    decreases bps.len(),
{
    if bps.len() == 0 {
        0
    } else {
        spec_count_label(bps.drop_last(), label) + if bps.last().label == Some(label) {
            1int
        } else {
            0int
        }
    }
}

/// The read label of a run of breakpoints: the rollup rule applied to its
/// label counts.
pub open spec fn spec_read_label_of(bps: Seq<Breakpoint>) -> Label {
    spec_read_label(
        spec_count_label(bps, Label::Foldback),
        spec_count_label(bps, Label::Chimeric),
        spec_count_label(bps, Label::Pass),
    )
}

/// A label's count never exceeds the number of breakpoints.
pub proof fn lemma_count_le_len(bps: Seq<Breakpoint>, label: Label)
    ensures
        0 <= spec_count_label(bps, label) <= bps.len(),
    decreases bps.len(),
{
    if bps.len() > 0 {
        lemma_count_le_len(bps.drop_last(), label);
    }
}

/// Appending one breakpoint raises its label's count by one and no other.
proof fn lemma_count_push(bps: Seq<Breakpoint>, b: Breakpoint, label: Label)
    ensures
        spec_count_label(bps.push(b), label) == spec_count_label(bps, label) + if b.label == Some(
            label,
        ) {
            1int
        } else {
            0int
        },
{
    assert(bps.push(b).drop_last() =~= bps);
}

/// Every breakpoint's mapping quality is the minimum of its two sources'.
pub proof fn lemma_breakpoint_mapq(a: AlignmentRecord, b: AlignmentRecord, read_len: u32, cfg: Config)
    ensures
        spec_breakpoint(a, b, read_len, cfg).mapq == spec_min_mapq(a.mapq, b.mapq),
        spec_breakpoint(a, b, read_len, cfg).mapq <= a.mapq,
        spec_breakpoint(a, b, read_len, cfg).mapq <= b.mapq,
{
}

/// Builds the unlabelled breakpoint of one adjacent pair.
fn derive_breakpoint(a: &AlignmentRecord, b: &AlignmentRecord, read_len: u32) -> (bp: Breakpoint)
    ensures
        bp == spec_breakpoint_raw(*a, *b, read_len),
{
    let b1_loc: u64;
    let dir1: char;
    match a.strand {
        Strand::Forward => {
            b1_loc = a.ref_end;
            dir1 = '>';
        },
        Strand::Reverse => {
            b1_loc = a.ref_start;
            dir1 = '<';
        },
    }
    let b2_loc: u64;
    let dir2: char;
    match b.strand {
        Strand::Forward => {
            b2_loc = b.ref_start;
            dir2 = '>';
        },
        Strand::Reverse => {
            b2_loc = b.ref_end;
            dir2 = '<';
        },
    }
    let mapq = if a.mapq <= b.mapq {
        a.mapq
    } else {
        b.mapq
    };
    Breakpoint {
        b1_chr: a.ref_name.clone(),
        b1_loc: b1_loc,
        dir1: dir1,
        dir2: dir2,
        b2_chr: b.ref_name.clone(),
        b2_loc: b2_loc,
        mapq: mapq,
        read_id: a.read_id.clone(),
        read_len: read_len,
        label: None,
        r1_loc: a.query_end,
        r2_loc: b.query_start,
    }
}

/// Derives and labels the breakpoints of one read's cluster, already
/// filtered to at least two alignments and sorted by start position in
/// read coordinates.
///
/// Returns exactly one breakpoint per adjacent pair, in order.  Each
/// breakpoint bumps its label's slot of `break_counts`, and the read's
/// single rolled-up label bumps one slot of `read_counts`.
pub fn determine_break(
    clust: &Vec<AlignmentRecord>,
    config: &Config,
    read_counts: &mut Vec<u64>,
    break_counts: &mut Vec<u64>,
) -> (out: Vec<Breakpoint>)
    requires
        2 <= clust@.len() <= u32::MAX,
        sorted_by_query_start(clust@),
        config.wf(),
        old(read_counts)@.len() == 3,
        old(break_counts)@.len() == 3,
        forall|j: int| 0 <= j < 3 ==> old(read_counts)@[j] < u64::MAX,
        forall|j: int| 0 <= j < 3 ==> old(break_counts)@[j] + clust@.len() <= u64::MAX,
    ensures
        out@ == spec_breaks(clust@, *config),
        out@.len() == clust@.len() - 1,
        forall|i: int|
            0 <= i < out@.len() ==> out@[i].mapq == spec_min_mapq(
                clust@[i].mapq,
                clust@[i + 1].mapq,
            ),
        final(break_counts)@.len() == 3,
        final(break_counts)@[0] == old(break_counts)@[0] + spec_count_label(
            out@,
            Label::Foldback,
        ),
        final(break_counts)@[1] == old(break_counts)@[1] + spec_count_label(
            out@,
            Label::Chimeric,
        ),
        final(break_counts)@[2] == old(break_counts)@[2] + spec_count_label(out@, Label::Pass),
        final(read_counts)@ == old(read_counts)@.update(
            spec_label_index(spec_read_label_of(out@)),
            (old(read_counts)@[spec_label_index(spec_read_label_of(out@))] + 1) as u64,
        ),
{
    let ghost breaks = spec_breaks(clust@, *config);
    let mut out: Vec<Breakpoint> = Vec::new();
    let mut labels: Vec<u32> = Vec::new();
    labels.push(0);
    labels.push(0);
    labels.push(0);
    let read_len: u32 = clust[0].read_len;
    let n: usize = clust.len();
    let mut i: usize = 0;
    while i < n - 1
        invariant
            i <= n - 1,
            n == clust@.len(),
            2 <= n <= u32::MAX,
            config.wf(),
            read_len == clust@[0].read_len,
            breaks == spec_breaks(clust@, *config),
            out@ == breaks.take(i as int),
            labels@.len() == 3,
            labels@[0] == spec_count_label(out@, Label::Foldback),
            labels@[1] == spec_count_label(out@, Label::Chimeric),
            labels@[2] == spec_count_label(out@, Label::Pass),
            break_counts@.len() == 3,
            break_counts@[0] == old(break_counts)@[0] + spec_count_label(out@, Label::Foldback),
            break_counts@[1] == old(break_counts)@[1] + spec_count_label(out@, Label::Chimeric),
            break_counts@[2] == old(break_counts)@[2] + spec_count_label(out@, Label::Pass),
            read_counts@ == old(read_counts)@,
            forall|j: int| 0 <= j < 3 ==> old(break_counts)@[j] + clust@.len() <= u64::MAX,
        decreases n - 1 - i,
    {
        proof {
            lemma_count_le_len(out@, Label::Foldback);
            lemma_count_le_len(out@, Label::Chimeric);
            lemma_count_le_len(out@, Label::Pass);
        }
        let mut bp = derive_breakpoint(&clust[i], &clust[i + 1], read_len);
        let label = classify_break(&bp, config, break_counts);
        bp.label = Some(label);
        proof {
            assert(bp == breaks[i as int]);
        }
        match label {
            Label::Foldback => {
                let v = labels[0];
                labels[0] = v + 1;
            },
            Label::Chimeric => {
                let v = labels[1];
                labels[1] = v + 1;
            },
            Label::Pass => {
                let v = labels[2];
                labels[2] = v + 1;
            },
        }
        proof {
            lemma_count_push(out@, bp, Label::Foldback);
            lemma_count_push(out@, bp, Label::Chimeric);
            lemma_count_push(out@, bp, Label::Pass);
            assert(breaks.take(i + 1) =~= breaks.take(i as int).push(breaks[i as int]));
        }
        out.push(bp);
        i = i + 1;
    }
    proof {
        assert(out@ =~= breaks);
        assert(forall|k: int|
            0 <= k < breaks.len() ==> #[trigger] breaks[k].mapq == spec_min_mapq(
                clust@[k].mapq,
                clust@[k + 1].mapq,
            ));
    }
    read_level_class(&labels, read_counts);
    out
}

} // verus!
