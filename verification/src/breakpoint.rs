//! Breakpoints and their labels.

use vstd::prelude::*;
use vstd::string::StringExecFns;

use crate::text::spec_digits;

verus! {

/// The label a breakpoint or a read receives.  Classification is total:
/// every breakpoint gets exactly one of these.
#[derive(Clone, Copy, PartialEq, Eq, Structural, Debug)]
pub enum Label {
    Foldback,
    Chimeric,
    Pass,
}

/// Position of a label's counter in the three-slot counter vectors
/// (foldback, chimeric, pass).
pub open spec fn spec_label_index(label: Label) -> int {
    match label {
        Label::Foldback => 0,
        Label::Chimeric => 1,
        Label::Pass => 2,
    }
}

/// One internal split point of a read, inferred from two alignments that
/// are adjacent in read coordinates.
///
/// `b1_chr`/`b1_loc` and `b2_chr`/`b2_loc` are the genomic coordinates of
/// the two sides; `dir1` and `dir2` form the two-character direction code,
/// where `'>'` means the end was taken on the forward strand and `'<'` on
/// the reverse strand.  `r1_loc` and `r2_loc` are the read-space end of the
/// earlier alignment and the read-space start of the later one, bounding
/// the split point inside the read.
#[derive(Debug)]
pub struct Breakpoint {
    pub b1_chr: String,
    pub b1_loc: u64,
    pub dir1: char,
    pub dir2: char,
    pub b2_chr: String,
    pub b2_loc: u64,
    pub mapq: u8,
    pub read_id: String,
    pub read_len: u32,
    pub label: Option<Label>,
    pub r1_loc: u32,
    pub r2_loc: u32,
}

/// The text a breakpoint's label shows: the label's name, or `"NA"` while
/// none is set.
pub open spec fn spec_label_text(label: Option<Label>) -> Seq<char> {
    match label {
        Some(Label::Foldback) => "Foldback"@,
        Some(Label::Chimeric) => "Chimeric"@,
        Some(Label::Pass) => "Pass"@,
        None => "NA"@,
    }
}

/// The tab-delimited record of one breakpoint, in field order: first side's
/// reference name and coordinate, the two-character direction code, second
/// side's reference name and coordinate, mapping quality, read identifier,
/// classification, and — when read coordinates are asked for — the two
/// read-space coordinates bounding the split.
pub open spec fn spec_tsv(b: Breakpoint, rcoords: bool) -> Seq<char> {
    let base = b.b1_chr@ + seq!['\t'] + spec_digits(b.b1_loc as nat) + seq!['\t'] + seq![
        b.dir1,
        b.dir2,
    ] + seq!['\t'] + b.b2_chr@ + seq!['\t'] + spec_digits(b.b2_loc as nat) + seq!['\t']
        + spec_digits(b.mapq as nat) + seq!['\t'] + b.read_id@ + seq!['\t'] + spec_label_text(
        b.label,
    );
    if rcoords {
        base + seq!['\t'] + spec_digits(b.r1_loc as nat) + seq!['\t'] + spec_digits(
            b.r2_loc as nat,
        )
    } else {
        base
    }
}

/// The name of a label, or `"NA"` for none.
fn label_text(label: &Option<Label>) -> (s: &'static str)
    ensures
        s@ == spec_label_text(*label),
{
    match label {
        Some(Label::Foldback) => "Foldback",
        Some(Label::Chimeric) => "Chimeric",
        Some(Label::Pass) => "Pass",
        None => "NA",
    }
}

/// One direction character as text.
fn dir_text(dir: char) -> (s: &'static str)
    requires
        dir == '>' || dir == '<',
    ensures
        s@ == seq![dir],
{
    proof {
        reveal_strlit(">");
        reveal_strlit("<");
    }
    if dir == '>' {
        ">"
    } else {
        "<"
    }
}

impl Breakpoint {
    /// The direction code of a derived breakpoint only ever holds these two
    /// characters.
    pub open spec fn wf(self) -> bool {
        (self.dir1 == '>' || self.dir1 == '<') && (self.dir2 == '>' || self.dir2 == '<')
    }

    /// Renders the breakpoint as one tab-delimited line, read coordinates
    /// included when `rcoords` asks for them.
    pub fn as_tsv(&self, rcoords: &bool) -> (line: String)
        requires
            self.wf(),
        ensures
            line@ == spec_tsv(*self, *rcoords),
    {
        let mut line = self.b1_chr.clone();
        line.append("\t");
        let loc1 = crate::text::u64_to_string(self.b1_loc);
        line.append(loc1.as_str());
        line.append("\t");
        line.append(dir_text(self.dir1));
        line.append(dir_text(self.dir2));
        line.append("\t");
        line.append(self.b2_chr.as_str());
        line.append("\t");
        let loc2 = crate::text::u64_to_string(self.b2_loc);
        line.append(loc2.as_str());
        line.append("\t");
        let mq = crate::text::u64_to_string(self.mapq as u64);
        line.append(mq.as_str());
        line.append("\t");
        line.append(self.read_id.as_str());
        line.append("\t");
        line.append(label_text(&self.label));
        if *rcoords {
            line.append("\t");
            let r1 = crate::text::u64_to_string(self.r1_loc as u64);
            line.append(r1.as_str());
            line.append("\t");
            let r2 = crate::text::u64_to_string(self.r2_loc as u64);
            line.append(r2.as_str());
        }
        proof {
            reveal_strlit("\t");
            assert(line@ =~= spec_tsv(*self, *rcoords));
        }
        line
    }
}

impl Clone for Breakpoint {
    fn clone(&self) -> (res: Self)
        ensures
            res == *self,
    {
        Breakpoint {
            b1_chr: self.b1_chr.clone(),
            b1_loc: self.b1_loc,
            dir1: self.dir1,
            dir2: self.dir2,
            b2_chr: self.b2_chr.clone(),
            b2_loc: self.b2_loc,
            mapq: self.mapq,
            read_id: self.read_id.clone(),
            read_len: self.read_len,
            label: self.label,
            r1_loc: self.r1_loc,
            r2_loc: self.r2_loc,
        }
    }
}

} // verus!
