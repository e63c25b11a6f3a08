//! Detection of split-read alignment artifacts for genome-assembly quality
//! control.
//!
//! A read whose alignment is split over several records can witness two kinds
//! of artifact: a *foldback* (the read folds back on itself in an inverted
//! pattern) and a *chimera* (the two sides of a split map to distant or
//! different reference loci).  This crate holds the format-agnostic core of
//! the detector: grouping records by read, filtering, deriving one breakpoint
//! per adjacent alignment pair, classifying each breakpoint, and rolling the
//! labels up to a single read-level label.  Input decoding, file output and
//! report rendering live outside the library and only hand it plain values.

pub mod breakpoint;
pub mod breaks;
pub mod cigar;
pub mod classify;
pub mod cluster;
pub mod config;
pub mod pipeline;
pub mod record;
pub mod sort;
pub mod text;

pub use breakpoint::{Breakpoint, Label};
pub use breaks::determine_break;
pub use cigar::{aligned_len_reaches, get_read_len, query_end, query_loc, CigarOp};
pub use classify::{classify_break, read_level_class};
pub use cluster::{filter_alignments, get_clusters};
pub use config::Config;
pub use pipeline::process_cluster;
pub use record::{AlignmentRecord, Strand};
pub use sort::sort_by_query_start;
pub use text::{add_commas, u64_to_string};
