//! Parsed pane text: a document is a sequence of lines, a line a sequence of
//! spans, and a span a run of characters that share one style.

use crate::style::Style;
use vstd::prelude::*;

verus! {

/// A run of characters with one style.
#[derive(Clone, Debug, PartialEq, Eq)]
pub struct StyledSpan {
    pub content: String,
    pub style: Style,
}

/// One logical line: its spans from left to right. A line without spans, or
/// whose spans are all empty, is a blank terminal row.
#[derive(Clone, Debug, PartialEq, Eq)]
pub struct StyledLine {
    pub spans: Vec<StyledSpan>,
    pub style: Style,
    pub alignment: Option<ratatui::layout::HorizontalAlignment>,
}

/// The parsed content of one pane for one frame.
#[derive(Clone, Debug, PartialEq, Eq)]
pub struct StyledDocument {
    pub lines: Vec<StyledLine>,
    pub style: Style,
    pub alignment: Option<ratatui::layout::HorizontalAlignment>,
}

/// Mathematical value of a [`StyledSpan`].
pub struct SpanView {
    pub content: Seq<char>,
    pub style: Style,
}

/// Mathematical value of a [`StyledLine`].
pub struct LineView {
    pub spans: Seq<SpanView>,
    pub style: Style,
    pub alignment: Option<ratatui::layout::HorizontalAlignment>,
}

/// Mathematical value of a [`StyledDocument`].
pub struct DocumentView {
    pub lines: Seq<LineView>,
    pub style: Style,
    pub alignment: Option<ratatui::layout::HorizontalAlignment>,
}

impl View for StyledSpan {
    type V = SpanView;

    open spec fn view(&self) -> SpanView {
        SpanView { content: self.content@, style: self.style }
    }
}

impl View for StyledLine {
    type V = LineView;

    open spec fn view(&self) -> LineView {
        LineView {
            spans: self.spans@.map_values(|span: StyledSpan| span@),
            style: self.style,
            alignment: self.alignment,
        }
    }
}

impl View for StyledDocument {
    type V = DocumentView;

    open spec fn view(&self) -> DocumentView {
        DocumentView {
            lines: self.lines@.map_values(|line: StyledLine| line@),
            style: self.style,
            alignment: self.alignment,
        }
    }
}

impl DocumentView {
    /// The document without lines, in the plain style.
    pub open spec fn empty() -> DocumentView {
        DocumentView { lines: Seq::empty(), style: Style::plain(), alignment: None }
    }

    /// One plain line holding `content` as its only span.
    pub open spec fn unstyled(content: Seq<char>) -> DocumentView {
        DocumentView {
            lines: seq![
                LineView {
                    spans: seq![SpanView { content, style: Style::plain() }],
                    style: Style::plain(),
                    alignment: None,
                },
            ],
            style: Style::plain(),
            alignment: None,
        }
    }
}

impl StyledDocument {
    /// A document without lines.
    pub fn empty() -> (document: StyledDocument)
        ensures
            document@ == DocumentView::empty(),
    {
        let document = StyledDocument { lines: Vec::new(), style: Style::default(), alignment: None };
        assert(document@.lines =~= Seq::empty());
        document
    }

    /// The fallback for text that cannot be decoded: one plain line whose
    /// single span holds `content` verbatim.
    pub fn unstyled(content: &str) -> (document: StyledDocument)
        ensures
            document@ == DocumentView::unstyled(content@),
    {
        let span = StyledSpan { content: content.to_owned(), style: Style::default() };
        let mut spans: Vec<StyledSpan> = Vec::new();
        spans.push(span);
        let line = StyledLine { spans, style: Style::default(), alignment: None };
        assert(line@.spans =~= seq![SpanView { content: content@, style: Style::plain() }]);
        let mut lines: Vec<StyledLine> = Vec::new();
        lines.push(line);
        let document = StyledDocument { lines, style: Style::default(), alignment: None };
        assert(document@.lines =~= DocumentView::unstyled(content@).lines);
        document
    }
}

} // verus!
