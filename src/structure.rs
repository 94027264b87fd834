//! The structure classifier and chunk accumulator for the working region.

use vstd::prelude::*;
use crate::text::{views, find_from, find_line, starts_with, has_prefix, push_line};

verus! {

/// A line opens an environment.
pub open spec fn is_begin(l: Seq<char>) -> bool {
    starts_with(l, "\\begin{"@)
}

/// A line closes an environment.
pub open spec fn is_end(l: Seq<char>) -> bool {
    starts_with(l, "\\end{"@)
}

/// The environment name of a begin or end line: the characters after its
/// first `{` up to the next `}`, or up to the end of the line.
pub open spec fn env_name(l: Seq<char>) -> Seq<char> {
    let o = find_from(l, '{', 0);
    if o < l.len() {
        l.subrange(o + 1, find_from(l, '}', o + 1))
    } else {
        Seq::empty()
    }
}

/// The environment stack after line `l`: a begin line pushes its name; an end
/// line removes the first equal name counted from the bottom, if any.
pub open spec fn stack_after(stack: Seq<Seq<char>>, l: Seq<char>) -> Seq<Seq<char>> {
    if is_begin(l) {
        stack.push(env_name(l))
    } else if is_end(l) {
        let k = find_from(stack, env_name(l), 0);
        if k < stack.len() {
            stack.remove(k)
        } else {
            stack
        }
    } else {
        stack
    }
}

/// A line is kept verbatim when it is a comment, a command, or stands inside
/// an environment once its own begin or end has been taken into account.
pub open spec fn is_preserved(stack: Seq<Seq<char>>, l: Seq<char>) -> bool {
    starts_with(l, "%"@) || starts_with(l, "\\"@) || stack.len() > 0
}

/// How a line of the working region is treated.
#[derive(PartialEq, Eq, Structural, Clone, Copy, Debug)]
pub enum LineClass {
    Preserved,
    FreeText,
}

/// The class of `l` given the stack after it.
pub open spec fn class_of(stack: Seq<Seq<char>>, l: Seq<char>) -> LineClass {
    if is_preserved(stack, l) {
        LineClass::Preserved
    } else {
        LineClass::FreeText
    }
}

/// The stack of environments open at a point of the working region.
#[derive(Debug)]
pub struct EnvStack {
    pub names: Vec<String>,
}

impl View for EnvStack {
    type V = Seq<Seq<char>>;

    open spec fn view(&self) -> Seq<Seq<char>> {
        views(self.names@)
    }
}

impl EnvStack {
    /// An empty stack.
    pub fn new() -> (r: EnvStack)
        ensures
            r@ == Seq::<Seq<char>>::empty(),
    {
        let r = EnvStack { names: Vec::new() };
        assert(r@ =~= Seq::<Seq<char>>::empty());
        r
    }

    /// The number of open environments.
    pub fn depth(&self) -> (r: usize)
        ensures
            r == self@.len(),
    {
        self.names.len()
    }
}

/// The environment name of a line (see `env_name`).
pub fn env_name_of(line: &str) -> (r: String)
    ensures
        r@ == env_name(line@),
{
    let n = line.unicode_len();
    let mut o: usize = 0;
    while o < n && line.get_char(o) != '{'
        invariant
            n == line@.len(),
            o <= n,
            find_from(line@, '{', 0) == find_from(line@, '{', o as int),
        decreases n - o,
    {
        o = o + 1;
    }
    if o == n {
        return String::new();
    }
    let mut c: usize = o + 1;
    while c < n && line.get_char(c) != '}'
        invariant
            n == line@.len(),
            o < c <= n,
            find_from(line@, '}', o + 1) == find_from(line@, '}', c as int),
        decreases n - c,
    {
        c = c + 1;
    }
    String::from_str(line.substring_char(o + 1, c))
}

/// Applies line `line` to the environment stack and classifies it.
pub fn classify_line(stack: &mut EnvStack, line: &str) -> (r: LineClass)
    ensures
        final(stack)@ == stack_after(old(stack)@, line@),
        r == class_of(final(stack)@, line@),
{
    let begin = has_prefix(line, "\\begin{");
    let end = has_prefix(line, "\\end{");
    if begin {
        let name = env_name_of(line);
        stack.names.push(name);
        assert(stack@ =~= old(stack)@.push(env_name(line@)));
    } else if end {
        let name = env_name_of(line);
        let k = find_line(&stack.names, &name, 0);
        if k < stack.names.len() {
            stack.names.remove(k);
            assert(stack@ =~= old(stack)@.remove(k as int));
        }
    }
    if has_prefix(line, "%") || has_prefix(line, "\\") || stack.names.len() > 0 {
        LineClass::Preserved
    } else {
        LineClass::FreeText
    }
}


/// Comment and command lines are always preserved, and so is any line that
/// leaves the environment stack non-empty, whatever its content; only the
/// remaining lines are free text.
pub proof fn lemma_preserved_lines(stack: Seq<Seq<char>>, l: Seq<char>)
    ensures
        starts_with(l, "%"@) ==> class_of(stack_after(stack, l), l) == LineClass::Preserved,
        starts_with(l, "\\"@) ==> class_of(stack_after(stack, l), l) == LineClass::Preserved,
        stack_after(stack, l).len() > 0 ==> class_of(stack_after(stack, l), l)
            == LineClass::Preserved,
        class_of(stack_after(stack, l), l) == LineClass::FreeText <==> (!starts_with(l, "%"@)
            && !starts_with(l, "\\"@) && stack_after(stack, l).len() == 0),
{
}

/// A piece of the working region: a line kept verbatim, or a run of free-text
/// lines (each followed by a newline) to be corrected.
#[derive(Clone, Debug, PartialEq, Eq)]
pub enum Segment {
    Preserved(String),
    Chunk(String),
}

/// The view of a `Segment`.
pub enum SegmentView {
    Preserved(Seq<char>),
    Chunk(Seq<char>),
}

impl View for Segment {
    type V = SegmentView;

    open spec fn view(&self) -> SegmentView {
        match self {
            Segment::Preserved(l) => SegmentView::Preserved(l@),
            Segment::Chunk(t) => SegmentView::Chunk(t@),
        }
    }
}

/// The view of every segment of a sequence.
pub open spec fn segment_views(v: Seq<Segment>) -> Seq<SegmentView> {
    v.map_values(|s: Segment| s@)
}

/// The pending chunk as a segment, unless it is empty.
pub open spec fn flush(pending: Seq<char>) -> Seq<SegmentView> {
    if pending.len() == 0 {
        Seq::empty()
    } else {
        seq![SegmentView::Chunk(pending)]
    }
}

/// The segments of `lines`, scanned from the given stack and pending chunk.
/// A preserved line first flushes the pending chunk; a free-text line joins
/// it; at the end of the region the pending chunk is flushed too.
pub open spec fn segments_from(
    stack: Seq<Seq<char>>,
    pending: Seq<char>,
    lines: Seq<Seq<char>>,
) -> Seq<SegmentView>
    decreases lines.len(),
{
    if lines.len() == 0 {
        flush(pending)
    } else {
        let l = lines[0];
        let st = stack_after(stack, l);
        if is_preserved(st, l) {
            flush(pending) + seq![SegmentView::Preserved(l)] + segments_from(
                st,
                Seq::empty(),
                lines.drop_first(),
            )
        } else {
            segments_from(st, pending + l + seq!['\n'], lines.drop_first())
        }
    }
}

/// The segments of a working region, scanned from an empty stack.
pub open spec fn segments_of(lines: Seq<Seq<char>>) -> Seq<SegmentView> {
    segments_from(Seq::empty(), Seq::empty(), lines)
}

/// Cuts the working region into preserved lines and free-text chunks, in order.
pub fn segment_working(lines: &Vec<String>) -> (r: Vec<Segment>)
    ensures
        segment_views(r@) == segments_of(views(lines@)),
{
    let ghost all = views(lines@);
    let mut out: Vec<Segment> = Vec::new();
    let mut stack = EnvStack::new();
    let mut pending = String::new();
    let mut i: usize = 0;
    assert(all.skip(0) =~= all);
    while i < lines.len()
        invariant
            i <= lines.len(),
            all == views(lines@),
            segment_views(out@) + segments_from(stack@, pending@, all.skip(i as int))
                == segments_of(all),
        decreases lines.len() - i,
    {
        let ghost rest = all.skip(i as int);
        let ghost before = segment_views(out@);
        let ghost old_pending = pending@;
        let ghost old_stack = stack@;
        assert(rest[0] == lines@[i as int]@);
        assert(rest.drop_first() =~= all.skip(i + 1));
        let line = &lines[i];
        let class = classify_line(&mut stack, line.as_str());
        if class == LineClass::Preserved {
            if pending.unicode_len() > 0 {
                out.push(Segment::Chunk(pending));
                pending = String::new();
            }
            out.push(Segment::Preserved(line.clone()));
            proof {
                assert(segment_views(out@) =~= before + flush(old_pending) + seq![
                    SegmentView::Preserved(rest[0]),
                ]);
                assert(pending@ =~= Seq::<char>::empty());
            }
        } else {
            push_line(&mut pending, line.as_str());
        }
        proof {
            assert(segment_views(out@) + segments_from(stack@, pending@, all.skip(i + 1))
                =~= before + segments_from(old_stack, old_pending, rest));
        }
        i = i + 1;
    }
    assert(all.skip(i as int) =~= Seq::<Seq<char>>::empty());
    let ghost before = segment_views(out@);
    let ghost last = pending@;
    if pending.unicode_len() > 0 {
        out.push(Segment::Chunk(pending));
    }
    assert(segment_views(out@) =~= before + flush(last));
    out
}

} // verus!
