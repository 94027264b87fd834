//! The marker scanner: cuts a document into preamble, working region and trailer.

use vstd::prelude::*;
use crate::text::{views, find_from, find_line};

verus! {

/// The line that opens the working region.
pub open spec fn start_marker() -> Seq<char> {
    "%CORRECT_START"@
}

/// The line that closes the working region.
pub open spec fn end_marker() -> Seq<char> {
    "%CORRECT_END"@
}

/// The three regions of a document, as lines.
#[derive(Debug)]
pub struct Regions {
    pub preamble: Vec<String>,
    pub working: Vec<String>,
    pub trailer: Vec<String>,
}

/// Where the start marker stands (the document's length if nowhere).
pub open spec fn start_of(doc: Seq<Seq<char>>) -> int {
    find_from(doc, start_marker(), 0)
}

/// Where the end marker stands after the start marker (the document's length if nowhere).
pub open spec fn end_of(doc: Seq<Seq<char>>) -> int {
    find_from(doc, end_marker(), start_of(doc) + 1)
}

/// The lines before the first start marker; the whole document when there is none.
pub open spec fn preamble_of(doc: Seq<Seq<char>>) -> Seq<Seq<char>> {
    doc.subrange(0, start_of(doc))
}

/// The lines strictly between the start marker and the first end marker after it.
pub open spec fn working_of(doc: Seq<Seq<char>>) -> Seq<Seq<char>> {
    if start_of(doc) < doc.len() {
        doc.subrange(start_of(doc) + 1, end_of(doc))
    } else {
        Seq::empty()
    }
}

/// The lines after that end marker.
pub open spec fn trailer_of(doc: Seq<Seq<char>>) -> Seq<Seq<char>> {
    if end_of(doc) < doc.len() {
        doc.subrange(end_of(doc) + 1, doc.len() as int)
    } else {
        Seq::empty()
    }
}

impl Regions {
    pub open spec fn preamble_view(&self) -> Seq<Seq<char>> {
        views(self.preamble@)
    }

    pub open spec fn working_view(&self) -> Seq<Seq<char>> {
        views(self.working@)
    }

    pub open spec fn trailer_view(&self) -> Seq<Seq<char>> {
        views(self.trailer@)
    }
}

/// A copy of `lines[from..to]`.
fn copy_range(lines: &Vec<String>, from: usize, to: usize) -> (r: Vec<String>)
    requires
        from <= to <= lines.len(),
    ensures
        views(r@) == views(lines@).subrange(from as int, to as int),
{
    let mut out: Vec<String> = Vec::new();
    let mut i = from;
    while i < to
        invariant
            from <= i <= to <= lines.len(),
            views(out@) =~= views(lines@).subrange(from as int, i as int),
        decreases to - i,
    {
        let line: String = lines[i].clone();
        proof {
            let t = views(lines@);
            assert(line@ == t[i as int]);
            assert(views(out@.push(line)) =~= views(out@).push(line@));
            assert(t.subrange(from as int, i + 1) =~= t.subrange(from as int, i as int).push(t[i as int]));
        }
        out.push(line);
        i = i + 1;
    }
    out
}

/// Splits a document, given as lines, at the first start marker and the
/// first end marker after it. Both marker lines are dropped. Without a start
/// marker the whole document is preamble; without an end marker the working
/// region runs to the end and the trailer is empty.
pub fn scan_regions(doc: &Vec<String>) -> (r: Regions)
    ensures
        r.preamble_view() == preamble_of(views(doc@)),
        r.working_view() == working_of(views(doc@)),
        r.trailer_view() == trailer_of(views(doc@)),
{
    let start_line = String::from_str("%CORRECT_START");
    let end_line = String::from_str("%CORRECT_END");
    let n = doc.len();
    let s = find_line(doc, &start_line, 0);
    let preamble = copy_range(doc, 0, s);
    if s == n {
        return Regions { preamble, working: Vec::new(), trailer: Vec::new() };
    }
    let e = find_line(doc, &end_line, s + 1);
    let working = copy_range(doc, s + 1, e);
    let trailer = if e < n {
        copy_range(doc, e + 1, n)
    } else {
        Vec::new()
    };
    Regions { preamble, working, trailer }
}

} // verus!
