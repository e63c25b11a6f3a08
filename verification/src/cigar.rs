//! Read-coordinate arithmetic over alignment operation lists.
//!
//! A structured binary alignment record does not carry the read span of an
//! alignment directly: it must be computed from the record's operation
//! list — which operations consume read bases, and the clips standing at
//! either end.  The functions here do that arithmetic over plain values;
//! a format adapter only converts each raw operation into a [`CigarOp`].

use vstd::prelude::*;

verus! {

/// One alignment operation with its length in basepairs.
#[derive(Clone, Copy, PartialEq, Eq, Structural, Debug)]
pub enum CigarOp {
    Match(u32),
    Ins(u32),
    Del(u32),
    RefSkip(u32),
    SoftClip(u32),
    HardClip(u32),
    Pad(u32),
    Equal(u32),
    Diff(u32),
}

impl CigarOp {
    /// The operation's length in basepairs.
    pub open spec fn spec_len(self) -> u32 {
        match self {
            CigarOp::Match(l) => l,
            CigarOp::Ins(l) => l,
            CigarOp::Del(l) => l,
            CigarOp::RefSkip(l) => l,
            CigarOp::SoftClip(l) => l,
            CigarOp::HardClip(l) => l,
            CigarOp::Pad(l) => l,
            CigarOp::Equal(l) => l,
            CigarOp::Diff(l) => l,
        }
    }

    /// Whether the operation consumes read bases within the aligned part.
    pub open spec fn consumes_query(self) -> bool {
        self is Match || self is Ins || self is Equal || self is Diff
    }

    /// Whether the operation is a clip at one end of the read.
    pub open spec fn is_clip(self) -> bool {
        self is SoftClip || self is HardClip
    }

    /// Read bases this operation contributes to the aligned part.
    fn query_contrib(&self) -> (l: u32)
        ensures
            l == if self.consumes_query() {
                self.spec_len()
            } else {
                0u32
            },
    {
        match self {
            CigarOp::Match(l) => *l,
            CigarOp::Ins(l) => *l,
            CigarOp::Equal(l) => *l,
            CigarOp::Diff(l) => *l,
            _ => 0,
        }
    }

    /// Read bases this operation contributes to the full read length.
    fn read_len_contrib(&self) -> (l: u32)
        ensures
            l == if self.consumes_query() || self.is_clip() {
                self.spec_len()
            } else {
                0u32
            },
    {
        match self {
            CigarOp::Match(l) => *l,
            CigarOp::Ins(l) => *l,
            CigarOp::Equal(l) => *l,
            CigarOp::Diff(l) => *l,
            CigarOp::SoftClip(l) => *l,
            CigarOp::HardClip(l) => *l,
            _ => 0,
        }
    }
}

/// Read bases of the aligned part: the sum of the lengths of the
/// query-consuming operations.
pub open spec fn spec_aligned_query_len(ops: Seq<CigarOp>) -> int
    decreases ops.len(),
{
    if ops.len() == 0 {
        0
    } else {
        spec_aligned_query_len(ops.drop_last()) + if ops.last().consumes_query() {
            ops.last().spec_len() as int
        } else {
            0int
        }
    }
}

/// The full read length: the aligned part plus the clips at the ends.
pub open spec fn spec_read_len(ops: Seq<CigarOp>) -> int
    decreases ops.len(),
{
    if ops.len() == 0 {
        0
    } else {
        spec_read_len(ops.drop_last()) + if ops.last().consumes_query() || ops.last().is_clip() {
            ops.last().spec_len() as int
        } else {
            0int
        }
    }
}

/// A prefix never sums to more than the whole list, and no sum is negative.
pub proof fn lemma_aligned_query_len_prefix(ops: Seq<CigarOp>, i: int)
    requires
        0 <= i <= ops.len(),
    ensures
        0 <= spec_aligned_query_len(ops.take(i)) <= spec_aligned_query_len(ops),
    decreases ops.len(),
{
    if i == ops.len() {
        assert(ops.take(i) =~= ops);
        if ops.len() > 0 {
            lemma_aligned_query_len_prefix(ops.drop_last(), i - 1);
            assert(ops.drop_last().take(i - 1) =~= ops.drop_last());
        }
    } else {
        lemma_aligned_query_len_prefix(ops.drop_last(), i);
        assert(ops.drop_last().take(i) =~= ops.take(i));
    }
}

/// Same for the full read length.
pub proof fn lemma_read_len_prefix(ops: Seq<CigarOp>, i: int)
    requires
        0 <= i <= ops.len(),
    ensures
        0 <= spec_read_len(ops.take(i)) <= spec_read_len(ops),
    decreases ops.len(),
{
    if i == ops.len() {
        assert(ops.take(i) =~= ops);
        if ops.len() > 0 {
            lemma_read_len_prefix(ops.drop_last(), i - 1);
            assert(ops.drop_last().take(i - 1) =~= ops.drop_last());
        }
    } else {
        lemma_read_len_prefix(ops.drop_last(), i);
        assert(ops.drop_last().take(i) =~= ops.take(i));
    }
}

/// The clip at the list's front, or zero when none stands there.
pub open spec fn spec_start_clip(ops: Seq<CigarOp>) -> u32 {
    if ops.len() > 0 && ops.first().is_clip() {
        ops.first().spec_len()
    } else {
        0u32
    }
}

/// The clip at the list's back, or zero when none stands there.
pub open spec fn spec_end_clip(ops: Seq<CigarOp>) -> u32 {
    if ops.len() > 0 && ops.last().is_clip() {
        ops.last().spec_len()
    } else {
        0u32
    }
}

/// Where the aligned part starts in read coordinates: the clip at the
/// read-start end, which for a reverse-strand alignment is the back of the
/// operation list.
pub open spec fn spec_query_loc(ops: Seq<CigarOp>, reverse: bool) -> u32 {
    if reverse {
        spec_end_clip(ops)
    } else {
        spec_start_clip(ops)
    }
}

/// The clip at the read-end end of the alignment: subtracted from the full
/// read length it gives where the aligned part ends in read coordinates.
pub open spec fn spec_query_end(ops: Seq<CigarOp>, reverse: bool) -> u32 {
    if reverse {
        spec_start_clip(ops)
    } else {
        spec_end_clip(ops)
    }
}

/// The clip at the list's front, or zero.
fn start_clip(ops: &Vec<CigarOp>) -> (clip: u32)
    ensures
        clip == spec_start_clip(ops@),
{
    if ops.len() > 0 {
        match ops[0] {
            CigarOp::SoftClip(l) => l,
            CigarOp::HardClip(l) => l,
            _ => 0,
        }
    } else {
        0
    }
}

/// The clip at the list's back, or zero.
fn end_clip(ops: &Vec<CigarOp>) -> (clip: u32)
    ensures
        clip == spec_end_clip(ops@),
{
    if ops.len() > 0 {
        match ops[ops.len() - 1] {
            CigarOp::SoftClip(l) => l,
            CigarOp::HardClip(l) => l,
            _ => 0,
        }
    } else {
        0
    }
}

/// Start of the aligned part in read coordinates.
pub fn query_loc(ops: &Vec<CigarOp>, reverse: bool) -> (loc: u32)
    ensures
        loc == spec_query_loc(ops@, reverse),
{
    if reverse {
        end_clip(ops)
    } else {
        start_clip(ops)
    }
}

/// The clip beyond the aligned part's read-end side.
pub fn query_end(ops: &Vec<CigarOp>, reverse: bool) -> (clip: u32)
    ensures
        clip == spec_query_end(ops@, reverse),
{
    if reverse {
        start_clip(ops)
    } else {
        end_clip(ops)
    }
}

/// The full read length implied by an operation list.
pub fn get_read_len(ops: &Vec<CigarOp>) -> (len: u32)
    requires
        spec_read_len(ops@) <= u32::MAX,
    ensures
        len == spec_read_len(ops@),
{
    let mut len: u32 = 0;
    let mut i: usize = 0;
    while i < ops.len()
        invariant
            i <= ops@.len(),
            len == spec_read_len(ops@.take(i as int)),
            spec_read_len(ops@) <= u32::MAX,
        decreases ops@.len() - i,
    {
        proof {
            lemma_read_len_prefix(ops@, i + 1);
            assert(ops@.take(i + 1).drop_last() =~= ops@.take(i as int));
            assert(ops@.take(i + 1).last() == ops@[i as int]);
        }
        let c = ops[i].read_len_contrib();
        len = len + c;
        i = i + 1;
    }
    proof {
        assert(ops@.take(ops@.len() as int) =~= ops@);
    }
    len
}

/// Whether the aligned part reaches `min_map_len` read bases.  The sum
/// stops accumulating as soon as the threshold is met rather than scanning
/// the whole list.
pub fn aligned_len_reaches(ops: &Vec<CigarOp>, min_map_len: u32) -> (reached: bool)
    ensures
        reached == (spec_aligned_query_len(ops@) >= min_map_len),
{
    let mut qlen: u64 = 0;
    let mut i: usize = 0;
    while i < ops.len() && qlen < min_map_len as u64
        invariant
            i <= ops@.len(),
            qlen == spec_aligned_query_len(ops@.take(i as int)),
            qlen <= min_map_len as u64 + u32::MAX as u64,
        decreases ops@.len() - i,
    {
        proof {
            assert(ops@.take(i + 1).drop_last() =~= ops@.take(i as int));
            assert(ops@.take(i + 1).last() == ops@[i as int]);
        }
        let c = ops[i].query_contrib();
        qlen = qlen + c as u64;
        i = i + 1;
    }
    proof {
        lemma_aligned_query_len_prefix(ops@, i as int);
        if i == ops@.len() {
            assert(ops@.take(i as int) =~= ops@);
        }
    }
    qlen >= min_map_len as u64
}

} // verus!
