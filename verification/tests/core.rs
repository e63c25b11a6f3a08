use breakinator::{
    classify_break, determine_break, filter_alignments, get_clusters, process_cluster,
    sort_by_query_start, AlignmentRecord, Breakpoint, Config, Label, Strand,
};

fn rec(
    id: &str,
    chr: &str,
    ref_start: u64,
    ref_end: u64,
    strand: Strand,
    query_start: u32,
    query_end: u32,
    read_len: u32,
    mapq: u8,
) -> AlignmentRecord {
    AlignmentRecord {
        read_id: id.to_string(),
        ref_name: chr.to_string(),
        ref_start,
        ref_end,
        strand,
        query_start,
        query_end,
        read_len,
        mapq,
        secondary: false,
        unmapped: false,
    }
}

fn cfg(chim: u64, fold: u64, sym: bool) -> Config {
    Config {
        min_mapq: 10,
        min_map_len: 200,
        chim,
        fold,
        margin_ppm: 100_000,
        sym,
        rcoord: false,
    }
}

fn bp(
    chr1: &str,
    loc1: u64,
    dir1: char,
    dir2: char,
    chr2: &str,
    loc2: u64,
    read_len: u32,
    r1: u32,
    r2: u32,
) -> Breakpoint {
    Breakpoint {
        b1_chr: chr1.to_string(),
        b1_loc: loc1,
        dir1,
        dir2,
        b2_chr: chr2.to_string(),
        b2_loc: loc2,
        mapq: 60,
        read_id: "read1".to_string(),
        read_len,
        label: None,
        r1_loc: r1,
        r2_loc: r2,
    }
}

fn zeros() -> Vec<u64> {
    vec![0, 0, 0]
}

#[test]
fn forward_pair_close_is_pass() {
    // A forward-forward pair 20 bp apart: direction ">>", no inverted
    // signature, so it passes whatever the distance.
    let clust = vec![
        rec("r", "chr1", 100, 500, Strand::Forward, 0, 400, 1000, 60),
        rec("r", "chr1", 520, 900, Strand::Forward, 400, 780, 1000, 60),
    ];
    let c = cfg(1_000_000, 200, false);
    let mut reads = zeros();
    let mut breaks = zeros();
    let out = determine_break(&clust, &c, &mut reads, &mut breaks);
    assert_eq!(out.len(), 1);
    assert_eq!(out[0].dir1, '>');
    assert_eq!(out[0].dir2, '>');
    assert_eq!(out[0].b1_loc, 500);
    assert_eq!(out[0].b2_loc, 520);
    assert_eq!(out[0].label, Some(Label::Pass));
    assert_eq!(breaks, vec![0, 0, 1]);
    assert_eq!(reads, vec![0, 0, 1]);
}

#[test]
fn inverted_pair_close_is_foldback() {
    // A forward piece ending at 500 and a reverse piece whose reference end
    // is 480: direction "><", distance 20, symmetry check off.
    let clust = vec![
        rec("r", "chr1", 100, 500, Strand::Forward, 0, 400, 1000, 60),
        rec("r", "chr1", 80, 480, Strand::Reverse, 400, 800, 1000, 60),
    ];
    let c = cfg(1_000_000, 200, false);
    let mut reads = zeros();
    let mut breaks = zeros();
    let out = determine_break(&clust, &c, &mut reads, &mut breaks);
    assert_eq!(out.len(), 1);
    assert_eq!(out[0].dir1, '>');
    assert_eq!(out[0].dir2, '<');
    assert_eq!(out[0].b1_loc, 500);
    assert_eq!(out[0].b2_loc, 480);
    assert_eq!(out[0].label, Some(Label::Foldback));
    assert_eq!(breaks, vec![1, 0, 0]);
    assert_eq!(reads, vec![1, 0, 0]);
}

#[test]
fn reverse_then_forward_takes_start_then_start() {
    // Left side on the reverse strand takes the reference start; right side
    // on the forward strand takes the reference start: direction "<>".
    let clust = vec![
        rec("r", "chr1", 100, 500, Strand::Reverse, 0, 400, 1000, 60),
        rec("r", "chr1", 80, 120, Strand::Forward, 400, 800, 1000, 60),
    ];
    let c = cfg(1_000_000, 200, false);
    let mut reads = zeros();
    let mut breaks = zeros();
    let out = determine_break(&clust, &c, &mut reads, &mut breaks);
    assert_eq!(out.len(), 1);
    assert_eq!(out[0].dir1, '<');
    assert_eq!(out[0].dir2, '>');
    assert_eq!(out[0].b1_loc, 100);
    assert_eq!(out[0].b2_loc, 80);
    assert_eq!(out[0].read_id, "r");
    assert_eq!(out[0].read_len, 1000);
    assert_eq!(out[0].r1_loc, 400);
    assert_eq!(out[0].r2_loc, 400);
    assert_eq!(out[0].label, Some(Label::Foldback));
}

#[test]
fn different_references_are_chimeric_regardless_of_thresholds() {
    let clust = vec![
        rec("r", "chr1", 0, 400, Strand::Forward, 0, 400, 800, 60),
        rec("r", "chr2", 0, 400, Strand::Forward, 400, 800, 800, 60),
    ];
    // Thresholds set far away from the actual distance on purpose.
    let c = cfg(u64::MAX, u64::MAX, false);
    let mut reads = zeros();
    let mut breaks = zeros();
    let out = determine_break(&clust, &c, &mut reads, &mut breaks);
    assert_eq!(out.len(), 1);
    assert_eq!(out[0].label, Some(Label::Chimeric));
    assert_eq!(breaks, vec![0, 1, 0]);
    assert_eq!(reads, vec![0, 1, 0]);
}

#[test]
fn n_alignments_yield_n_minus_1_breakpoints_in_order() {
    let clust = vec![
        rec("r", "chr1", 0, 300, Strand::Forward, 0, 300, 1200, 60),
        rec("r", "chr1", 310, 600, Strand::Forward, 300, 590, 1200, 60),
        rec("r", "chr1", 620, 900, Strand::Forward, 590, 870, 1200, 60),
        rec("r", "chr1", 920, 1200, Strand::Forward, 870, 1150, 1200, 60),
    ];
    let c = cfg(1_000_000, 200, false);
    let mut reads = zeros();
    let mut breaks = zeros();
    let out = determine_break(&clust, &c, &mut reads, &mut breaks);
    assert_eq!(out.len(), 3);
    assert_eq!(out[0].b1_loc, 300);
    assert_eq!(out[0].b2_loc, 310);
    assert_eq!(out[1].b1_loc, 600);
    assert_eq!(out[1].b2_loc, 620);
    assert_eq!(out[2].b1_loc, 900);
    assert_eq!(out[2].b2_loc, 920);
    assert_eq!(breaks, vec![0, 0, 3]);
}

#[test]
fn breakpoint_mapq_is_min_of_sources() {
    let clust = vec![
        rec("r", "chr1", 100, 500, Strand::Forward, 0, 400, 1000, 30),
        rec("r", "chr1", 520, 900, Strand::Forward, 400, 780, 1000, 7),
    ];
    let c = cfg(1_000_000, 200, false);
    let mut reads = zeros();
    let mut breaks = zeros();
    let out = determine_break(&clust, &c, &mut reads, &mut breaks);
    assert_eq!(out[0].mapq, 7);
}

#[test]
fn chimeric_distance_threshold_is_inclusive() {
    let mut breaks = zeros();
    let b = bp("chr1", 100, '>', '>', "chr1", 1100, 4000, 500, 520);
    let c = cfg(1000, 200, false);
    let label = classify_break(&b, &c, &mut breaks);
    assert_eq!(label, Label::Chimeric);
    assert_eq!(breaks, vec![0, 1, 0]);
}

#[test]
fn just_under_chimeric_threshold_is_not_chimeric() {
    let mut breaks = zeros();
    let b = bp("chr1", 100, '>', '>', "chr1", 1099, 4000, 500, 520);
    let c = cfg(1000, 200, false);
    let label = classify_break(&b, &c, &mut breaks);
    assert_eq!(label, Label::Pass);
}

#[test]
fn foldback_distance_threshold_is_inclusive() {
    let mut breaks = zeros();
    let b = bp("chr1", 500, '>', '<', "chr1", 700, 1000, 480, 500);
    let c = cfg(1_000_000, 200, false);
    let label = classify_break(&b, &c, &mut breaks);
    assert_eq!(label, Label::Foldback);
}

#[test]
fn equal_directions_never_foldback() {
    let c = cfg(1_000_000, 200, false);
    for dir in ['<', '>'] {
        let mut breaks = zeros();
        let b = bp("chr1", 500, dir, dir, "chr1", 510, 1000, 480, 500);
        let label = classify_break(&b, &c, &mut breaks);
        assert_eq!(label, Label::Pass);
    }
}

#[test]
fn symmetric_foldback_kept_when_split_near_middle() {
    // read_len 1000, margin 0.1: the split midpoint 490 lies within
    // 500 +- 100.
    let mut breaks = zeros();
    let b = bp("chr1", 500, '>', '<', "chr1", 480, 1000, 480, 500);
    let c = cfg(1_000_000, 200, true);
    let label = classify_break(&b, &c, &mut breaks);
    assert_eq!(label, Label::Foldback);
    assert_eq!(breaks, vec![1, 0, 0]);
}

#[test]
fn asymmetric_foldback_demoted_to_pass() {
    // The split midpoint 110 lies far from 500 +- 100.
    let mut breaks = zeros();
    let b = bp("chr1", 500, '>', '<', "chr1", 480, 1000, 100, 120);
    let c = cfg(1_000_000, 200, true);
    let label = classify_break(&b, &c, &mut breaks);
    assert_eq!(label, Label::Pass);
    assert_eq!(breaks, vec![0, 0, 1]);
}

#[test]
fn symmetry_window_boundary_is_inclusive() {
    // read_len 1000, margin 0.1: midpoint exactly 600 = 500 + 100 passes
    // the symmetry test.
    let mut breaks = zeros();
    let b = bp("chr1", 500, '>', '<', "chr1", 480, 1000, 600, 600);
    let c = cfg(1_000_000, 200, true);
    let label = classify_break(&b, &c, &mut breaks);
    assert_eq!(label, Label::Foldback);
}

#[test]
fn filter_drops_secondary_unmapped_low_quality_and_short() {
    let good = rec("r", "chr1", 0, 900, Strand::Forward, 0, 900, 1000, 60);
    let mut secondary = good.clone();
    secondary.secondary = true;
    let mut unmapped = good.clone();
    unmapped.unmapped = true;
    let mut low_mapq = good.clone();
    low_mapq.mapq = 9;
    let mut short = good.clone();
    short.query_end = 199;
    let all = vec![
        secondary,
        good.clone(),
        unmapped,
        low_mapq,
        short,
        good.clone(),
    ];
    let kept = filter_alignments(&all, 10, 200);
    assert_eq!(kept.len(), 2);
    assert!(!kept[0].secondary && !kept[1].secondary);
}

#[test]
fn filter_thresholds_are_inclusive() {
    let at_mapq = rec("r", "chr1", 0, 900, Strand::Forward, 0, 900, 1000, 10);
    let at_len = rec("r", "chr1", 0, 200, Strand::Forward, 0, 200, 1000, 60);
    let under_len = rec("r", "chr1", 0, 199, Strand::Forward, 0, 199, 1000, 60);
    let all = vec![at_mapq, at_len, under_len];
    let kept = filter_alignments(&all, 10, 200);
    assert_eq!(kept.len(), 2);
    assert_eq!(kept[0].mapq, 10);
    assert_eq!(kept[1].query_end, 200);
}

#[test]
fn get_clusters_walks_contiguous_groups() {
    let records = vec![
        rec("a", "chr1", 0, 300, Strand::Forward, 0, 300, 600, 60),
        rec("a", "chr1", 300, 600, Strand::Forward, 300, 600, 600, 60),
        rec("b", "chr2", 0, 300, Strand::Forward, 0, 300, 300, 60),
        rec("c", "chr3", 0, 300, Strand::Forward, 0, 300, 300, 60),
        rec("c", "chr3", 300, 600, Strand::Forward, 0, 300, 300, 60),
    ];
    let mut cluster = Vec::new();
    let next = get_clusters(&records, 0, &mut cluster);
    assert_eq!(next, 2);
    assert_eq!(cluster.len(), 2);
    assert_eq!(cluster[0].read_id, "a");
    let next = get_clusters(&records, next, &mut cluster);
    assert_eq!(next, 3);
    assert_eq!(cluster.len(), 1);
    assert_eq!(cluster[0].read_id, "b");
    let next = get_clusters(&records, next, &mut cluster);
    assert_eq!(next, 5);
    assert_eq!(cluster.len(), 2);
    let next = get_clusters(&records, next, &mut cluster);
    assert_eq!(next, 5);
    assert!(cluster.is_empty());
}

#[test]
fn sort_is_stable_on_equal_keys() {
    let mut v = vec![
        rec("r", "chr1", 0, 300, Strand::Forward, 500, 800, 1000, 3),
        rec("r", "chr1", 0, 300, Strand::Forward, 100, 400, 1000, 1),
        rec("r", "chr1", 0, 300, Strand::Forward, 100, 400, 1000, 2),
    ];
    sort_by_query_start(&mut v);
    assert_eq!(v[0].mapq, 1);
    assert_eq!(v[1].mapq, 2);
    assert_eq!(v[2].mapq, 3);
}

#[test]
fn process_cluster_counts_single_survivor_without_breakpoints() {
    let cluster = vec![
        rec("r", "chr1", 0, 900, Strand::Forward, 0, 900, 1000, 60),
        rec("r", "chr1", 0, 900, Strand::Forward, 0, 100, 1000, 60),
    ];
    let c = cfg(1_000_000, 200, false);
    let mut pass: u64 = 0;
    let mut reads = zeros();
    let mut breaks = zeros();
    let out = process_cluster(&cluster, &c, &mut pass, &mut reads, &mut breaks);
    assert!(out.is_empty());
    assert_eq!(pass, 1);
    assert_eq!(reads, vec![0, 0, 0]);
    assert_eq!(breaks, vec![0, 0, 0]);
}

#[test]
fn process_cluster_skips_filtered_to_empty_cluster() {
    let cluster = vec![rec("r", "chr1", 0, 900, Strand::Forward, 0, 100, 1000, 60)];
    let c = cfg(1_000_000, 200, false);
    let mut pass: u64 = 0;
    let mut reads = zeros();
    let mut breaks = zeros();
    let out = process_cluster(&cluster, &c, &mut pass, &mut reads, &mut breaks);
    assert!(out.is_empty());
    assert_eq!(pass, 0);
    assert_eq!(reads, vec![0, 0, 0]);
    assert_eq!(breaks, vec![0, 0, 0]);
}

#[test]
fn process_cluster_sorts_by_read_position_before_deriving() {
    // Records arrive reference-ordered but read-reversed; the pipeline must
    // pair them in read order.
    let cluster = vec![
        rec("r", "chr1", 100, 500, Strand::Forward, 500, 900, 1000, 60),
        rec("r", "chr1", 600, 1000, Strand::Forward, 0, 400, 1000, 60),
    ];
    let c = cfg(1_000_000, 200, false);
    let mut pass: u64 = 0;
    let mut reads = zeros();
    let mut breaks = zeros();
    let out = process_cluster(&cluster, &c, &mut pass, &mut reads, &mut breaks);
    assert_eq!(out.len(), 1);
    assert_eq!(out[0].b1_loc, 1000);
    assert_eq!(out[0].b2_loc, 100);
    assert_eq!(pass, 1);
}

#[test]
fn identical_runs_reproduce_identical_results() {
    let cluster = vec![
        rec("r", "chr1", 100, 500, Strand::Forward, 0, 400, 1000, 60),
        rec("r", "chr1", 80, 480, Strand::Reverse, 400, 800, 1000, 13),
        rec("r", "chr2", 0, 400, Strand::Forward, 800, 1000, 1000, 60),
    ];
    let c = cfg(1_000_000, 200, true);
    let mut pass1: u64 = 0;
    let mut reads1 = zeros();
    let mut breaks1 = zeros();
    let out1 = process_cluster(&cluster, &c, &mut pass1, &mut reads1, &mut breaks1);
    let mut pass2: u64 = 0;
    let mut reads2 = zeros();
    let mut breaks2 = zeros();
    let out2 = process_cluster(&cluster, &c, &mut pass2, &mut reads2, &mut breaks2);
    assert_eq!(out1.len(), out2.len());
    for (a, b) in out1.iter().zip(out2.iter()) {
        assert_eq!(a.b1_chr, b.b1_chr);
        assert_eq!(a.b1_loc, b.b1_loc);
        assert_eq!(a.dir1, b.dir1);
        assert_eq!(a.dir2, b.dir2);
        assert_eq!(a.b2_chr, b.b2_chr);
        assert_eq!(a.b2_loc, b.b2_loc);
        assert_eq!(a.mapq, b.mapq);
        assert_eq!(a.label, b.label);
    }
    assert_eq!(pass1, pass2);
    assert_eq!(reads1, reads2);
    assert_eq!(breaks1, breaks2);
}

#[test]
fn margin_outside_unit_interval_is_rejected() {
    assert!(Config::new(10, 200, 1_000_000, 200, 1_000_001, true, false).is_none());
    let c = Config::new(10, 200, 1_000_000, 200, 1_000_000, true, false);
    assert!(c.is_some());
    assert_eq!(c.unwrap().margin_ppm, 1_000_000);
    let d = Config::default();
    assert_eq!(d.min_mapq, 10);
    assert_eq!(d.min_map_len, 200);
    assert_eq!(d.chim, 1_000_000);
    assert_eq!(d.fold, 200);
    assert_eq!(d.margin_ppm, 100_000);
}
