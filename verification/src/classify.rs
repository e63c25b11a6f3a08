//! Breakpoint classification and the read-level rollup.
//!
//! Both deciders are total functions stated as spec functions
//! ([`spec_classify`], [`spec_read_label`]); the executable functions return
//! exactly those values and bump exactly one slot of the run-wide counter
//! vectors (slot 0 foldback, slot 1 chimeric, slot 2 pass).

use vstd::prelude::*;

use crate::breakpoint::{Breakpoint, Label, spec_label_index};
use crate::config::{Config, MARGIN_SCALE};

verus! {

/// Distance in basepairs between the two sides of a breakpoint.
pub open spec fn spec_dist(b: Breakpoint) -> int {
    if b.b2_loc >= b.b1_loc {
        b.b2_loc - b.b1_loc
    } else {
        b.b1_loc - b.b2_loc
    }
}

/// Whether the direction code is an inverted signature: the two ends point
/// toward or away from each other (`"<>"` or `"><"`).
pub open spec fn spec_inverted(b: Breakpoint) -> bool {
    (b.dir1 == '<' && b.dir2 == '>') || (b.dir1 == '>' && b.dir2 == '<')
}

/// Whether the split point lies close enough to the middle of the read.
///
/// The split point in read coordinates is the average of the two bounding
/// coordinates, `(r1 + r2) / 2`; it passes when it lies within
/// `margin * read_len` of `read_len / 2`, margins being proportions held in
/// parts per million.  Both sides of that comparison are scaled by
/// `2 * MARGIN_SCALE` so the test is exact integer arithmetic:
/// `|r1 + r2 - read_len| * MARGIN_SCALE <= 2 * margin_ppm * read_len`.
pub open spec fn spec_symmetric(read_len: u32, r1: u32, r2: u32, margin_ppm: u32) -> bool {
    let twice_mid = r1 + r2;
    let twice_offset = if twice_mid >= read_len {
        twice_mid - read_len
    } else {
        read_len - twice_mid
    };
    twice_offset * MARGIN_SCALE <= 2 * margin_ppm * read_len
}

/// The classification rule for one breakpoint.
///
/// Different reference names are chimeric outright; one reference name at a
/// distance of at least `chim` basepairs is chimeric; an inverted direction
/// code within `fold` basepairs is a foldback, subject to the symmetry test
/// when that is enabled; everything else passes.
pub open spec fn spec_classify(b: Breakpoint, cfg: Config) -> Label {
    if b.b1_chr@ != b.b2_chr@ {
        Label::Chimeric
    } else if spec_dist(b) >= cfg.chim {
        Label::Chimeric
    } else if spec_inverted(b) && spec_dist(b) <= cfg.fold {
        if !cfg.sym {
            Label::Foldback
        } else if spec_symmetric(b.read_len, b.r1_loc, b.r2_loc, cfg.margin_ppm) {
            Label::Foldback
        } else {
            Label::Pass
        }
    } else {
        Label::Pass
    }
}

/// The read-level rule over one read's breakpoint label counts, in priority
/// order: a read is a pass only when no breakpoint was an artifact; among
/// artifact reads the more frequent artifact label wins, a tie going to
/// foldback.
pub open spec fn spec_read_label(fold: int, chim: int, pass: int) -> Label {
    if pass > 0 && fold + chim == 0 {
        Label::Pass
    } else if fold >= chim {
        Label::Foldback
    } else {
        Label::Chimeric
    }
}

/// Adds one to slot `i` of a counter vector.
fn bump(counts: &mut Vec<u64>, i: usize)
    requires
        i < old(counts)@.len(),
        old(counts)@[i as int] < u64::MAX,
    ensures
        final(counts)@ == old(counts)@.update(i as int, (old(counts)@[i as int] + 1) as u64),
{
    let v = counts[i];
    counts[i] = v + 1;
}

/// The symmetry test, counting its outcome: a foldback candidate is kept
/// only when its split point lies within the margin window around the
/// middle of the read.
fn check_sym(brk: &Breakpoint, config: &Config, break_counts: &mut Vec<u64>) -> (label: Label)
    requires
        config.wf(),
        old(break_counts)@.len() == 3,
        forall|j: int| 0 <= j < 3 ==> old(break_counts)@[j] < u64::MAX,
    ensures
        label == (if spec_symmetric(brk.read_len, brk.r1_loc, brk.r2_loc, config.margin_ppm) {
            Label::Foldback
        } else {
            Label::Pass
        }),
        final(break_counts)@ == old(break_counts)@.update(
            spec_label_index(label),
            (old(break_counts)@[spec_label_index(label)] + 1) as u64,
        ),
{
    let twice_mid: u64 = brk.r1_loc as u64 + brk.r2_loc as u64;
    let rl: u64 = brk.read_len as u64;
    let twice_offset: u64 = if twice_mid >= rl {
        twice_mid - rl
    } else {
        rl - twice_mid
    };
    proof {
        assert(twice_offset <= 2 * u32::MAX);
        assert(2 * (config.margin_ppm as u64) * rl <= 2_000_000 * (u32::MAX as u64))
            by (nonlinear_arith)
            requires
                config.margin_ppm <= 1_000_000,
                rl <= u32::MAX,
        ;
    }
    let scaled_offset: u64 = twice_offset * (MARGIN_SCALE as u64);
    let window: u64 = 2 * (config.margin_ppm as u64) * rl;
    if scaled_offset <= window {
        bump(break_counts, 0);
        Label::Foldback
    } else {
        bump(break_counts, 2);
        Label::Pass
    }
}

/// Labels one breakpoint and bumps the matching run-wide breakpoint
/// counter.  The label returned is exactly [`spec_classify`] of the
/// breakpoint and the configuration.
pub fn classify_break(brk: &Breakpoint, config: &Config, break_counts: &mut Vec<u64>) -> (label: Label)
    requires
        config.wf(),
        old(break_counts)@.len() == 3,
        forall|j: int| 0 <= j < 3 ==> old(break_counts)@[j] < u64::MAX,
    ensures
        label == spec_classify(*brk, *config),
        final(break_counts)@ == old(break_counts)@.update(
            spec_label_index(label),
            (old(break_counts)@[spec_label_index(label)] + 1) as u64,
        ),
{
    let dist: u64 = if brk.b2_loc >= brk.b1_loc {
        brk.b2_loc - brk.b1_loc
    } else {
        brk.b1_loc - brk.b2_loc
    };
    let same_chr = brk.b1_chr == brk.b2_chr;
    if !same_chr {
        bump(break_counts, 1);
        Label::Chimeric
    } else if dist >= config.chim {
        bump(break_counts, 1);
        Label::Chimeric
    } else if ((brk.dir1 == '<' && brk.dir2 == '>') || (brk.dir1 == '>' && brk.dir2 == '<'))
        && dist <= config.fold {
        if config.sym {
            check_sym(brk, config, break_counts)
        } else {
            bump(break_counts, 0);
            Label::Foldback
        }
    } else {
        bump(break_counts, 2);
        Label::Pass
    }
}

/// Rolls one read's breakpoint label counts (`label_counts`, slots foldback
/// / chimeric / pass) up to the single read label of [`spec_read_label`]
/// and bumps that label's run-wide read counter.
pub fn read_level_class(label_counts: &Vec<u32>, cur_counts: &mut Vec<u64>)
    requires
        label_counts@.len() == 3,
        old(cur_counts)@.len() == 3,
        forall|j: int| 0 <= j < 3 ==> old(cur_counts)@[j] < u64::MAX,
    ensures
        ({
            let label = spec_read_label(
                label_counts@[0] as int,
                label_counts@[1] as int,
                label_counts@[2] as int,
            );
            final(cur_counts)@ == old(cur_counts)@.update(
                spec_label_index(label),
                (old(cur_counts)@[spec_label_index(label)] + 1) as u64,
            )
        }),
{
    if label_counts[2] > 0 && (label_counts[0] as u64 + label_counts[1] as u64 == 0) {
        bump(cur_counts, 2);
    } else if label_counts[0] >= label_counts[1] {
        bump(cur_counts, 0);
    } else {
        bump(cur_counts, 1);
    }
}

/// Classification is total and deterministic: every breakpoint receives
/// exactly one of the three labels, the same one on every run, whatever
/// the breakpoint and configuration hold.
pub proof fn lemma_classify_total(b: Breakpoint, cfg: Config)
    ensures
        spec_classify(b, cfg) == Label::Foldback || spec_classify(b, cfg) == Label::Chimeric
            || spec_classify(b, cfg) == Label::Pass,
        !(spec_classify(b, cfg) == Label::Foldback && spec_classify(b, cfg) == Label::Chimeric),
        !(spec_classify(b, cfg) == Label::Foldback && spec_classify(b, cfg) == Label::Pass),
        !(spec_classify(b, cfg) == Label::Chimeric && spec_classify(b, cfg) == Label::Pass),
{
}

/// Two sides on differently named references are chimeric, whatever the
/// distance, the direction code and the thresholds.
pub proof fn lemma_different_refs_chimeric(b: Breakpoint, cfg: Config)
    requires
        b.b1_chr@ != b.b2_chr@,
    ensures
        spec_classify(b, cfg) == Label::Chimeric,
{
}

/// A direction code whose two characters are equal (`"<<"` or `">>"`) never
/// yields a foldback, even at a distance within the foldback threshold.
pub proof fn lemma_equal_directions_never_foldback(b: Breakpoint, cfg: Config)
    requires
        b.dir1 == b.dir2,
    ensures
        spec_classify(b, cfg) != Label::Foldback,
{
}

/// A read with equally many (and at least one) foldback and chimeric
/// breakpoints is a foldback read: the tie resolves toward foldback.
pub proof fn lemma_tie_resolves_to_foldback(fold: int, chim: int, pass: int)
    requires
        fold == chim,
        fold > 0,
    ensures
        spec_read_label(fold, chim, pass) == Label::Foldback,
{
}

/// A read whose breakpoints all passed is a pass at the read level.
pub proof fn lemma_all_pass_read_passes(pass: int)
    requires
        pass > 0,
    ensures
        spec_read_label(0, 0, pass) == Label::Pass,
{
}

} // verus!
