//! Run configuration for the artifact detector.

use vstd::prelude::*;

verus! {

/// Scale of the symmetry margin: a margin of `MARGIN_SCALE` parts is the
/// whole read, so a valid margin lies in `0 ..= MARGIN_SCALE`.
pub const MARGIN_SCALE: u32 = 1_000_000;

/// Configuration of one run.
///
/// The symmetry margin is a proportion in `[0, 1]`, held exactly as an
/// integer count of parts per million (`margin_ppm / MARGIN_SCALE`), so
/// that the symmetry test is pure integer arithmetic.
#[derive(Clone, Copy, PartialEq, Eq, Structural, Debug)]
pub struct Config {
    /// Minimum mapping quality an alignment must reach to pass the filter
    /// (inclusive).
    pub min_mapq: u8,
    /// Minimum aligned length in basepairs an alignment must reach to pass
    /// the filter (inclusive).
    pub min_map_len: u32,
    /// A breakpoint whose two sides are at least this many basepairs apart
    /// is chimeric.
    pub chim: u64,
    /// A breakpoint whose two sides are at most this many basepairs apart
    /// may be a foldback.
    pub fold: u64,
    /// Half-width of the window around the middle of the read used by the
    /// symmetry test, as a proportion of the read length in parts per
    /// million.
    pub margin_ppm: u32,
    /// Whether a foldback candidate must also pass the symmetry test.
    pub sym: bool,
    /// Whether breakpoint records carry the two read coordinates.
    pub rcoord: bool,
}

impl Config {
    /// A configuration is well formed when its margin is a proportion,
    /// that is, at most the whole read.
    pub open spec fn wf(self) -> bool {
        self.margin_ppm <= MARGIN_SCALE
    }

    /// Builds a configuration, rejecting a margin outside `[0, 1]` before
    /// any record is processed.
    pub fn new(
        min_mapq: u8,
        min_map_len: u32,
        chim: u64,
        fold: u64,
        margin_ppm: u32,
        sym: bool,
        rcoord: bool,
    ) -> (res: Option<Config>)
        ensures
            res is Some <==> margin_ppm <= MARGIN_SCALE,
            res is Some ==> res->Some_0 == (Config {
                min_mapq,
                min_map_len,
                chim,
                fold,
                margin_ppm,
                sym,
                rcoord,
            }),
            res is Some ==> res->Some_0.wf(),
    {
        if margin_ppm <= MARGIN_SCALE {
            Some(Config { min_mapq, min_map_len, chim, fold, margin_ppm, sym, rcoord })
        } else {
            None
        }
    }
}

impl Default for Config {
    /// The default thresholds: mapping quality 10, aligned length 200 bp,
    /// chimeric distance 1,000,000 bp, foldback distance 200 bp, a margin
    /// of one tenth of the read, symmetry test on, read coordinates off.
    fn default() -> (res: Config)
        ensures
            res == (Config {
                min_mapq: 10u8,
                min_map_len: 200u32,
                chim: 1_000_000u64,
                fold: 200u64,
                margin_ppm: 100_000u32,
                sym: true,
                rcoord: false,
            }),
            res.wf(),
    {
        Config {
            min_mapq: 10,
            min_map_len: 200,
            chim: 1_000_000,
            fold: 200,
            margin_ppm: 100_000,
            sym: true,
            rcoord: false,
        }
    }
}

} // verus!
