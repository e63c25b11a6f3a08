//! The alignment view that every input format reduces to.
//!
//! Each adapter (one per container format) turns its records into
//! [`AlignmentRecord`]s; the whole pipeline works on this type alone.

use vstd::prelude::*;

verus! {

/// Strand of an alignment on the reference.  Adapters must reject any raw
/// strand value that is neither forward nor reverse, so the core never sees
/// an invalid strand.
#[derive(Clone, Copy, PartialEq, Eq, Structural, Debug)]
pub enum Strand {
    Forward,
    Reverse,
}

/// One alignment of a read against a reference sequence.
///
/// Coordinates are 0-based and half-open.  `query_start`/`query_end` bound
/// the aligned part of the read in read coordinates; `read_len` is the full
/// read length.  `secondary` and `unmapped` carry the record flags where the
/// format has them (an adapter for a format without them sets both false).
#[derive(Debug)]
pub struct AlignmentRecord {
    pub read_id: String,
    pub ref_name: String,
    pub ref_start: u64,
    pub ref_end: u64,
    pub strand: Strand,
    pub query_start: u32,
    pub query_end: u32,
    pub read_len: u32,
    pub mapq: u8,
    pub secondary: bool,
    pub unmapped: bool,
}

impl AlignmentRecord {
    /// Well-formedness assumed of upstream input: the aligned span of the
    /// read is a real interval, so its length can be taken by subtraction.
    pub open spec fn wf(self) -> bool {
        self.query_start <= self.query_end
    }

    /// Length of the aligned part of the read, in basepairs.
    pub open spec fn spec_aligned_len(self) -> int {
        self.query_end - self.query_start
    }
}

impl Clone for AlignmentRecord {
    fn clone(&self) -> (res: Self)
        ensures
            res == *self,
    {
        AlignmentRecord {
            read_id: self.read_id.clone(),
            ref_name: self.ref_name.clone(),
            ref_start: self.ref_start,
            ref_end: self.ref_end,
            strand: self.strand,
            query_start: self.query_start,
            query_end: self.query_end,
            read_len: self.read_len,
            mapq: self.mapq,
            secondary: self.secondary,
            unmapped: self.unmapped,
        }
    }
}

} // verus!
