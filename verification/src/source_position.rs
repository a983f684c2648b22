//! Source positions: byte ranges in the source document, and their rendering
//! as one-based line/column pairs.

use crate::render::{dec_nat, usize_string};
use vstd::prelude::*;
use vstd::string::StringExecFns;

verus! {

/// A half-open range of byte offsets into the source document.
#[derive(Clone, Copy, Debug, PartialEq, Eq, Structural)]
pub struct SourcePositionData {
    /// Starting byte position
    pub s: usize,
    /// Ending byte position
    pub e: usize,
}

/// The byte offset at which the line holding `position` starts: the nearest
/// newline at or before `position`, or the start of the document.
pub open spec fn spec_line_start(doc: Seq<u8>, position: int) -> int
    decreases position,
{
    if position <= 0 {
        0
    } else if doc[position - 1] == 10 {
        position
    } else {
        spec_line_start(doc, position - 1)
    }
}

/// How many newline bytes occur strictly before `upto`.
pub open spec fn spec_newline_count(doc: Seq<u8>, upto: int) -> nat
    decreases upto,
{
    if upto <= 0 {
        0
    } else {
        spec_newline_count(doc, upto - 1) + (if doc[upto - 1] == 10 {
            1nat
        } else {
            0nat
        })
    }
}

/// The one-based line number of a byte position.
pub open spec fn spec_line_number(doc: Seq<u8>, position: int) -> nat {
    spec_newline_count(doc, spec_line_start(doc, position)) + 1
}

/// The one-based column of a byte position.
pub open spec fn spec_column(doc: Seq<u8>, position: int) -> int {
    position - spec_line_start(doc, position) + 1
}

/// How a byte range renders: `[l1,c1]-[l2,c2]` with one-based lines/columns.
pub open spec fn spec_render_range(doc: Seq<u8>, pos: SourcePositionData) -> Seq<char> {
    "["@ + dec_nat(spec_line_number(doc, pos.s as int)) + ","@ + dec_nat(
        spec_column(doc, pos.s as int) as nat,
    ) + "]-["@ + dec_nat(spec_line_number(doc, pos.e as int)) + ","@ + dec_nat(
        spec_column(doc, pos.e as int) as nat,
    ) + "]"@
}

/// The source document, held as bytes so byte offsets from the front end can
/// be turned into line/column positions for error messages.
pub struct SourceMap {
    pub doc: Vec<u8>,
}

impl SourceMap {
    /// Wraps a document.
    pub fn new(doc: Vec<u8>) -> (r: SourceMap)
        ensures
            r.doc@ == doc@,
    {
        SourceMap { doc }
    }

    /// Finds the start of the line this byte position is on.
    pub fn get_line_start(&self, position: usize) -> (r: usize)
        requires
            position <= self.doc@.len(),
        ensures
            r == spec_line_start(self.doc@, position as int),
    {
        let mut p = position;
        while p > 0
            invariant
                0 <= p <= position <= self.doc@.len(),
                spec_line_start(self.doc@, position as int) == spec_line_start(
                    self.doc@,
                    p as int,
                ),
            decreases p,
        {
            if self.doc[p - 1] == 10 {
                return p;
            }
            p = p - 1;
        }
        0
    }

    /// Finds the one-based line number of a given source byte position.
    pub fn get_line_number(&self, position: usize) -> (r: usize)
        requires
            position <= self.doc@.len(),
            spec_line_number(self.doc@, position as int) <= usize::MAX,
        ensures
            r == spec_line_number(self.doc@, position as int),
    {
        let start = self.get_line_start(position);
        proof {
            lemma_line_start_le(self.doc@, position as int);
        }
        let mut count: usize = 0;
        let mut i: usize = 0;
        proof {
            lemma_newline_count_bound(self.doc@, start as int);
        }
        while i < start
            invariant
                0 <= i <= start <= self.doc@.len(),
                count == spec_newline_count(self.doc@, i as int),
                spec_newline_count(self.doc@, i as int) <= spec_newline_count(
                    self.doc@,
                    start as int,
                ),
                spec_newline_count(self.doc@, start as int) + 1 <= usize::MAX,
            decreases start - i,
        {
            proof {
                lemma_newline_count_monotone(self.doc@, i as int + 1, start as int);
            }
            if self.doc[i] == 10 {
                count = count + 1;
            }
            i = i + 1;
        }
        count + 1
    }

    /// Finds the one-based column of a given source byte position.
    pub fn get_column(&self, position: usize) -> (r: usize)
        requires
            position <= self.doc@.len(),
            position < usize::MAX,
        ensures
            r == spec_column(self.doc@, position as int),
    {
        let start = self.get_line_start(position);
        proof {
            lemma_line_start_le(self.doc@, position as int);
        }
        position - start + 1
    }

    /// Renders a byte range as `[l1,c1]-[l2,c2]`.
    pub fn render_range(&self, pos: &SourcePositionData) -> (r: String)
        requires
            pos.s <= self.doc@.len(),
            pos.e <= self.doc@.len(),
            spec_line_number(self.doc@, pos.s as int) <= usize::MAX,
            spec_line_number(self.doc@, pos.e as int) <= usize::MAX,
            pos.s < usize::MAX,
            pos.e < usize::MAX,
        ensures
            r@ == spec_render_range(self.doc@, *pos),
    {
        let l1 = self.get_line_number(pos.s);
        let c1 = self.get_column(pos.s);
        let l2 = self.get_line_number(pos.e);
        let c2 = self.get_column(pos.e);
        proof {
            lemma_line_start_le(self.doc@, pos.s as int);
            lemma_line_start_le(self.doc@, pos.e as int);
        }
        let mut out = String::new();
        out.append("[");
        out.append(usize_string(l1).as_str());
        out.append(",");
        out.append(usize_string(c1).as_str());
        out.append("]-[");
        out.append(usize_string(l2).as_str());
        out.append(",");
        out.append(usize_string(c2).as_str());
        out.append("]");
        proof {
            assert(out@ =~= spec_render_range(self.doc@, *pos));
        }
        out
    }
}

/// The start of a line never lies beyond the position itself, and never below
/// zero.
pub proof fn lemma_line_start_le(doc: Seq<u8>, position: int)
    requires
        position >= 0,
    ensures
        0 <= spec_line_start(doc, position) <= position,
    decreases position,
{
    if position > 0 && doc[position - 1] != 10 {
        lemma_line_start_le(doc, position - 1);
    }
}

/// There are never more newlines before a position than bytes before it.
proof fn lemma_newline_count_bound(doc: Seq<u8>, upto: int)
    ensures
        spec_newline_count(doc, upto) <= (if upto < 0 {
            0
        } else {
            upto
        }),
    decreases upto,
{
    if upto > 0 {
        lemma_newline_count_bound(doc, upto - 1);
    }
}

/// Newline counts grow with the prefix length.
proof fn lemma_newline_count_monotone(doc: Seq<u8>, a: int, b: int)
    requires
        a <= b,
    ensures
        spec_newline_count(doc, a) <= spec_newline_count(doc, b),
    decreases b - a,
{
    if a < b {
        lemma_newline_count_monotone(doc, a, b - 1);
    }
}

} // verus!
