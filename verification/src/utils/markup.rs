//! Text with pieces of code in it, for messages that an editor may render.

use vstd::prelude::*;
use vstd::string::*;

verus! {

/// A piece of a message: ordinary prose, or code to be set apart from it.
pub enum MarkupSegment {
    Plain(String),
    Code(String),
}

/// What a piece of a message holds.
pub enum SegmentView {
    Plain(Seq<char>),
    Code(Seq<char>),
}

impl View for MarkupSegment {
    type V = SegmentView;

    open spec fn view(&self) -> SegmentView {
        match self {
            MarkupSegment::Plain(text) => SegmentView::Plain(text@),
            MarkupSegment::Code(code) => SegmentView::Code(code@),
        }
    }
}

/// A message made of prose and code, piece by piece.
pub struct Markup {
    segments: Vec<MarkupSegment>,
}

impl View for Markup {
    type V = Seq<SegmentView>;

    closed spec fn view(&self) -> Seq<SegmentView> {
        Seq::new(self.segments@.len(), |i: int| self.segments@[i]@)
    }
}

/// The plain rendering of one piece: prose as it is, code between backticks.
pub open spec fn simple_segment(segment: SegmentView) -> Seq<char> {
    match segment {
        SegmentView::Plain(text) => text,
        SegmentView::Code(code) => seq!['`'] + code + seq!['`'],
    }
}

/// The plain rendering of a message: its pieces, rendered one after another.
pub open spec fn simple_string(segments: Seq<SegmentView>) -> Seq<char>
    decreases segments.len(),
{
    if segments.len() == 0 {
        Seq::empty()
    } else {
        simple_string(segments.drop_last()) + simple_segment(segments.last())
    }
}

impl Markup {
    /// An empty message.
    pub fn new() -> (markup: Markup)
        ensures
            markup@ == Seq::<SegmentView>::empty(),
    {
        let markup = Markup { segments: Vec::new() };
        assert(markup@ =~= Seq::<SegmentView>::empty());
        markup
    }

    /// Adds prose to the end of the message.
    pub fn text(&mut self, text: &str)
        ensures
            final(self)@ == old(self)@.push(SegmentView::Plain(text@)),
    {
        self.segments.push(MarkupSegment::Plain(String::from_str(text)));
        assert(self@ =~= old(self)@.push(SegmentView::Plain(text@)));
    }

    /// Adds code to the end of the message.
    pub fn code(&mut self, code: &str)
        ensures
            final(self)@ == old(self)@.push(SegmentView::Code(code@)),
    {
        self.segments.push(MarkupSegment::Code(String::from_str(code)));
        assert(self@ =~= old(self)@.push(SegmentView::Code(code@)));
    }

    /// Renders the message as plain text, with each piece of code between backticks.
    pub fn to_simple_string(&self) -> (rendered: String)
        ensures
            rendered@ == simple_string(self@),
    {
        let mut rendered = String::new();
        let mut i: usize = 0;
        while i < self.segments.len()
            invariant
                i <= self.segments@.len(),
                rendered@ == simple_string(self@.subrange(0, i as int)),
            decreases self.segments@.len() - i,
        {
            proof {
                reveal_strlit("`");
                assert(self@.subrange(0, i + 1).drop_last() =~= self@.subrange(0, i as int));
                assert(self@.subrange(0, i + 1).last() == self.segments@[i as int]@);
            }
            match &self.segments[i] {
                MarkupSegment::Plain(text) => {
                    rendered.append(text.as_str());
                },
                MarkupSegment::Code(code) => {
                    rendered.append("`");
                    rendered.append(code.as_str());
                    rendered.append("`");
                    assert(rendered@ =~= simple_string(self@.subrange(0, i as int)) + (seq!['`']
                        + code@ + seq!['`']));
                },
            }
            i += 1;
        }
        assert(self@.subrange(0, i as int) =~= self@);
        rendered
    }
}

} // verus!
