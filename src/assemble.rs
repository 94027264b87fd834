//! The reassembler: puts preamble, corrected segments and trailer back together.

use vstd::prelude::*;
use crate::text::{views, lines_text, join_spaced, push_line, find_from};
use crate::regions::{start_marker, start_of, end_of, preamble_of, working_of, trailer_of};
use crate::structure::{Segment, SegmentView, segment_views, segments_of};

verus! {

/// The text a segment contributes to the output, before its newline.
pub open spec fn content_of(s: SegmentView) -> Seq<char> {
    match s {
        SegmentView::Preserved(l) => l,
        SegmentView::Chunk(t) => t,
    }
}

/// The content of every segment, in order.
pub open spec fn contents(segs: Seq<SegmentView>) -> Seq<Seq<char>> {
    segs.map_values(|s: SegmentView| content_of(s))
}

/// The segments with every chunk replaced by its correction.
pub open spec fn resolve(
    segs: Seq<SegmentView>,
    correct: spec_fn(Seq<char>) -> Seq<char>,
) -> Seq<SegmentView> {
    segs.map_values(
        |s: SegmentView|
            match s {
                SegmentView::Preserved(l) => SegmentView::Preserved(l),
                SegmentView::Chunk(t) => SegmentView::Chunk(correct(t)),
            },
    )
}

/// The output document: the preamble, then each segment of the working region
/// (each chunk as corrected by `correct`), then the trailer, line by line.
pub open spec fn corrected_document(
    doc: Seq<Seq<char>>,
    correct: spec_fn(Seq<char>) -> Seq<char>,
) -> Seq<char> {
    lines_text(preamble_of(doc)) + lines_text(contents(resolve(segments_of(working_of(doc)), correct)))
        + lines_text(trailer_of(doc))
}

/// Puts the document together: the preamble's lines, then each segment's text
/// in order, then the trailer's lines, each followed by a newline.
pub fn reassemble(preamble: &Vec<String>, segments: &Vec<Segment>, trailer: &Vec<String>) -> (r:
    String)
    ensures
        r@ == lines_text(views(preamble@)) + lines_text(contents(segment_views(segments@)))
            + lines_text(views(trailer@)),
{
    let mut out = crate::text::lines_to_text(preamble);
    let ghost head = out@;
    let ghost all = contents(segment_views(segments@));
    let mut i: usize = 0;
    while i < segments.len()
        invariant
            i <= segments.len(),
            all == contents(segment_views(segments@)),
            out@ == head + lines_text(all.subrange(0, i as int)),
        decreases segments.len() - i,
    {
        match &segments[i] {
            Segment::Preserved(l) => push_line(&mut out, l.as_str()),
            Segment::Chunk(t) => push_line(&mut out, t.as_str()),
        }
        proof {
            assert(all.subrange(0, i + 1).drop_last() =~= all.subrange(0, i as int));
        }
        i = i + 1;
    }
    assert(all.subrange(0, i as int) =~= all);
    let tail = crate::text::lines_to_text(trailer);
    out.append(tail.as_str());
    out
}

/// The corrections of a chunk's batches joined by single spaces.
pub fn join_corrections(parts: &Vec<String>) -> (r: String)
    ensures
        r@ == join_spaced(views(parts@)),
{
    let ghost all = views(parts@);
    let mut out = String::new();
    let mut i: usize = 0;
    while i < parts.len()
        invariant
            i <= parts.len(),
            all == views(parts@),
            out@ == join_spaced(all.subrange(0, i as int)),
        decreases parts.len() - i,
    {
        proof {
            let next = all.subrange(0, i + 1);
            assert(next.drop_last() =~= all.subrange(0, i as int));
        }
        if i > 0 {
            proof {
                reveal_strlit(" ");
            }
            out.append(" ");
        }
        out.append(parts[i].as_str());
        i = i + 1;
    }
    assert(all.subrange(0, i as int) =~= all);
    out
}

proof fn lemma_find_absent<T>(s: Seq<T>, m: T, from: int)
    requires
        0 <= from,
        forall|i: int| 0 <= i < s.len() ==> s[i] != m,
    ensures
        find_from(s, m, from) == s.len(),
    decreases s.len() - from,
{
    if from < s.len() {
        lemma_find_absent(s, m, from + 1);
    }
}

/// A document without a start marker comes out as it went in, line by line,
/// whatever the corrections would have been.
pub proof fn lemma_no_start_marker_unchanged(
    doc: Seq<Seq<char>>,
    correct: spec_fn(Seq<char>) -> Seq<char>,
)
    requires
        forall|i: int| 0 <= i < doc.len() ==> doc[i] != start_marker(),
    ensures
        corrected_document(doc, correct) == lines_text(doc),
{
    lemma_find_absent(doc, start_marker(), 0);
    assert(start_of(doc) == doc.len());
    assert(end_of(doc) == doc.len());
    assert(preamble_of(doc) =~= doc);
    assert(working_of(doc) =~= Seq::<Seq<char>>::empty());
    assert(trailer_of(doc) =~= Seq::<Seq<char>>::empty());
    let segs = segments_of(working_of(doc));
    assert(segs =~= Seq::<SegmentView>::empty());
    let c = contents(resolve(segs, correct));
    assert(c =~= Seq::<Seq<char>>::empty());
    assert(lines_text(doc) + Seq::<char>::empty() + Seq::<char>::empty() =~= lines_text(doc));
}

} // verus!
