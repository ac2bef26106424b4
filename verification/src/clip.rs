//! Tail-clipping: the last rows of a pane's text that fit a viewport.

use crate::app::App;
use crate::document::DocumentView;
use crate::document::LineView;
use crate::document::SpanView;
use crate::document::StyledDocument;
use crate::document::StyledLine;
use crate::document::StyledSpan;
use crate::row_cursor::cursor_views;
use crate::row_cursor::CursorView;
use crate::rows::lemma_line_cell_source;
use crate::rows::lemma_row_start_line;
use crate::rows::lemma_wrap_start_cell;
use crate::rows::line_cells;
use crate::rows::row_starts;
use crate::slice::lemma_offset_is_boundary;
use crate::slice::cursor_on_boundary;
use crate::slice::sliced;
use crate::style::Style;
use ansi_to_tui::IntoText;
use vstd::prelude::*;

verus! {

/// What `ansi_to_tui::IntoText::into_text` makes of `content`: the lines and
/// styled spans that its colour and attribute sequences describe, or `None`
/// where it reports an error.
pub uninterp spec fn ansi_decoded(content: Seq<char>) -> Option<DocumentView>;

/// Calls `ansi_to_tui::IntoText::into_text` on `content` and copies the
/// resulting text field by field: lines, spans, contents, alignments, and of
/// each style the three colours and the bits of the two modifier sets.
#[verifier::external_body]
fn decode_ansi(content: &str) -> (decoded: Option<StyledDocument>)
    ensures
        match decoded {
            Some(document) => ansi_decoded(content@) == Some(document@),
            None => ansi_decoded(content@).is_none(),
        },
{
    let style = |s: ratatui::style::Style| Style {
        fg: s.fg,
        bg: s.bg,
        underline_color: s.underline_color,
        add_modifier: s.add_modifier.bits(),
        sub_modifier: s.sub_modifier.bits(),
    };
    let span = |s: ratatui::text::Span| StyledSpan { content: s.content.into_owned(), style: style(s.style) };
    let line = |l: ratatui::text::Line| StyledLine {
        spans: l.spans.into_iter().map(span).collect(),
        style: style(l.style),
        alignment: l.alignment,
    };
    let text = content.into_text().ok()?;
    Some(StyledDocument { lines: text.lines.into_iter().map(line).collect(), style: style(text.style), alignment: text.alignment })
}

/// The line shows nothing: it has no span, or only spans without characters.
pub open spec fn line_blank(line: LineView) -> bool {
    forall|i: int| 0 <= i < line.spans.len() ==> (#[trigger] line.spans[i]).content.len() == 0
}

/// Number of lines up to and including the last one that shows something.
pub open spec fn renderable_lines(lines: Seq<LineView>) -> nat
    decreases lines.len(),
{
    if lines.len() == 0 {
        0
    } else if line_blank(lines.last()) {
        renderable_lines(lines.drop_last())
    } else {
        lines.len()
    }
}

/// The span with the plain style.
pub open spec fn plain_span(span: SpanView) -> SpanView {
    SpanView { content: span.content, style: Style::plain() }
}

/// The line with the plain style on itself and on every span.
pub open spec fn plain_line(line: LineView) -> LineView {
    LineView {
        spans: line.spans.map_values(|span: SpanView| plain_span(span)),
        style: Style::plain(),
        alignment: line.alignment,
    }
}

/// The document with the plain style on itself, every line and every span;
/// contents and alignments stay.
pub open spec fn flattened(document: DocumentView) -> DocumentView {
    DocumentView {
        lines: document.lines.map_values(|line: LineView| plain_line(line)),
        style: Style::plain(),
        alignment: document.alignment,
    }
}

/// The row starts of the lines that show something.
pub open spec fn visible_row_starts(document: DocumentView, max_columns: nat) -> Seq<CursorView> {
    row_starts(document.lines, max_columns, renderable_lines(document.lines) as int)
}

/// The last `max_rows` display rows of `document` at `max_columns` columns:
/// nothing in a viewport without rows or columns; the document itself where
/// it has no more rows than fit; else the document from the start of its
/// `max_rows`-th row from the end.
pub open spec fn clipped(document: DocumentView, max_rows: nat, max_columns: nat) -> DocumentView {
    let starts = visible_row_starts(document, max_columns);
    if max_rows == 0 || max_columns == 0 {
        DocumentView::empty()
    } else if starts.len() <= max_rows {
        document
    } else {
        sliced(document, starts[starts.len() - max_rows])
    }
}

/// The document that raw pane text stands for: what the decoder makes of it,
/// or the text as one plain span where the decoder gives up.
pub open spec fn parsed(content: Seq<char>) -> DocumentView {
    match ansi_decoded(content) {
        Some(document) => document,
        None => DocumentView::unstyled(content),
    }
}

/// The parsed document as it is shown: with its styles, or all plain.
pub open spec fn shown(document: DocumentView, color_output: bool) -> DocumentView {
    if color_output {
        document
    } else {
        flattened(document)
    }
}

/// What a viewport of `max_rows` by `max_columns` shows of raw pane text.
pub open spec fn clip_of(content: Seq<char>, max_rows: nat, max_columns: nat, color_output: bool)
    -> DocumentView {
    if content.len() == 0 {
        DocumentView::empty()
    } else {
        clipped(shown(parsed(content), color_output), max_rows, max_columns)
    }
}

/// No more lines show something than there are lines.
pub proof fn lemma_renderable_lines_bound(lines: Seq<LineView>)
    ensures
        renderable_lines(lines) <= lines.len(),
    decreases lines.len(),
{
    if lines.len() > 0 {
        lemma_renderable_lines_bound(lines.drop_last());
    }
}

/// Every row start of a document lies at a character boundary within it.
pub proof fn lemma_row_start_on_boundary(document: DocumentView, max_columns: nat, i: int)
    requires
        0 <= i < visible_row_starts(document, max_columns).len(),
    ensures
        cursor_on_boundary(document, visible_row_starts(document, max_columns)[i]),
        visible_row_starts(document, max_columns)[i].line < renderable_lines(document.lines),
{
    let lines = document.lines;
    let limit = renderable_lines(lines) as int;
    lemma_renderable_lines_bound(lines);
    let line = lemma_row_start_line(lines, max_columns, limit, i);
    let t = i - row_starts(lines, max_columns, line).len();
    let spans = lines[line].spans;
    let cells = line_cells(spans);
    if t == 0 {
        if spans.len() > 0 {
            lemma_offset_is_boundary(spans[0].content, 0);
        }
    } else {
        let k = lemma_wrap_start_cell(cells, max_columns, line as nat, cells.len() as int, t - 1);
        lemma_line_cell_source(spans, k);
        let cell = cells[k];
        let before = line_cells(spans.take(cell.span as int)).len();
        lemma_offset_is_boundary(spans[cell.span as int].content, k - before);
    }
}

impl App {
    /// Clips raw pane text to the last `max_lines` display rows that fit a
    /// viewport `max_columns` wide. The text is decoded into styled lines,
    /// shown plain unless `color_output` is set, wrapped to the width by
    /// display columns, and cut at the start of the first row that stays.
    pub fn clip_to_bottom(content: &str, max_lines: usize, max_columns: usize, color_output: bool) -> (clip:
        StyledDocument)
        ensures
            clip@ == clip_of(content@, max_lines as nat, max_columns as nat, color_output),
    {
        if max_lines == 0 || max_columns == 0 || content.is_empty() {
            return StyledDocument::empty();
        }
        let text = match decode_ansi(content) {
            Some(text) => text,
            None => StyledDocument::unstyled(content),
        };
        let text = if color_output {
            text
        } else {
            Self::plain_text(text)
        };
        Self::clip_document(text, max_lines, max_columns)
    }

    /// Clips a parsed document to its last `max_lines` display rows at
    /// `max_columns` columns. Trailing lines that show nothing count for no
    /// row.
    pub fn clip_document(text: StyledDocument, max_lines: usize, max_columns: usize) -> (clip:
        StyledDocument)
        ensures
            clip@ == clipped(text@, max_lines as nat, max_columns as nat),
    {
        if max_lines == 0 || max_columns == 0 {
            return StyledDocument::empty();
        }
        let renderable = Self::renderable_line_count(&text);
        proof {
            lemma_renderable_lines_bound(text@.lines);
        }
        let row_starts = Self::collect_row_starts(&text, max_columns, renderable);
        if row_starts.len() <= max_lines {
            return text;
        }
        let start = row_starts[row_starts.len() - max_lines];
        proof {
            let i = row_starts.len() - max_lines;
            assert(cursor_views(row_starts@)[i] == start@);
            lemma_row_start_on_boundary(text@, max_columns as nat, i);
        }
        Self::slice_text_from(&text, start)
    }

    /// Whether `line` shows nothing.
    pub fn line_is_empty(line: &StyledLine) -> (blank: bool)
        ensures
            blank == line_blank(line@),
    {
        let mut index: usize = 0;
        while index < line.spans.len()
            invariant
                index <= line.spans.len(),
                forall|i: int| 0 <= i < index ==> (#[trigger] line@.spans[i]).content.len() == 0,
            decreases line.spans.len() - index,
        {
            if !line.spans[index].content.as_str().is_empty() {
                assert(line@.spans[index as int].content.len() > 0);
                return false;
            }
            index = index + 1;
        }
        true
    }

    /// Resets the style of `text`, of every line and of every span to the
    /// plain style. Contents stay.
    pub fn plain_text(text: StyledDocument) -> (plain: StyledDocument)
        ensures
            plain@ == flattened(text@),
    {
        let mut text = text;
        let ghost source = text@;
        text.style = Style::default();
        let mut line_index: usize = 0;
        while line_index < text.lines.len()
            invariant
                line_index <= text.lines.len(),
                text.lines.len() == source.lines.len(),
                text.style == Style::plain(),
                text.alignment == source.alignment,
                forall|i: int| 0 <= i < line_index ==> (#[trigger] text.lines[i])@ == plain_line(source.lines[i]),
                forall|i: int| line_index <= i < text.lines.len() ==> (#[trigger] text.lines[i])@ == source.lines[i],
            decreases text.lines.len() - line_index,
        {
            let ghost line = source.lines[line_index as int];
            text.lines[line_index].style = Style::default();
            let mut span_index: usize = 0;
            while span_index < text.lines[line_index].spans.len()
                invariant
                    line_index < text.lines.len(),
                    text.lines.len() == source.lines.len(),
                    text.style == Style::plain(),
                    text.alignment == source.alignment,
                    line == source.lines[line_index as int],
                    forall|i: int|
                        0 <= i < line_index ==> (#[trigger] text.lines[i])@ == plain_line(
                            source.lines[i],
                        ),
                    forall|i: int|
                        line_index < i < text.lines.len() ==> (#[trigger] text.lines[i])@
                            == source.lines[i],
                    text.lines[line_index as int].style == Style::plain(),
                    text.lines[line_index as int].alignment == line.alignment,
                    text.lines[line_index as int].spans.len() == line.spans.len(),
                    span_index <= line.spans.len(),
                    forall|j: int|
                        0 <= j < span_index ==> (#[trigger] text.lines[line_index as int].spans[j])@
                            == plain_span(line.spans[j]),
                    forall|j: int|
                        span_index <= j < line.spans.len() ==> (
                        #[trigger] text.lines[line_index as int].spans[j])@ == line.spans[j],
                decreases line.spans.len() - span_index,
            {
                text.lines[line_index].spans[span_index].style = Style::default();
                span_index = span_index + 1;
            }
            assert(text.lines[line_index as int]@.spans =~= plain_line(line).spans);
            line_index = line_index + 1;
        }
        assert(text@.lines =~= flattened(source).lines);
        text
    }

    /// Number of lines of `text` up to and including the last one that shows
    /// something.
    pub fn renderable_line_count(text: &StyledDocument) -> (count: usize)
        ensures
            count == renderable_lines(text@.lines),
    {
        let mut end = text.lines.len();
        proof {
            assert(text@.lines.take(end as int) =~= text@.lines);
        }
        while end > 0 && Self::line_is_empty(&text.lines[end - 1])
            invariant
                end <= text.lines.len(),
                renderable_lines(text@.lines) == renderable_lines(text@.lines.take(end as int)),
            decreases end,
        {
            proof {
                let upto = text@.lines.take(end as int);
                assert(upto.last() == text.lines[end - 1]@);
                assert(upto.drop_last() =~= text@.lines.take(end - 1));
            }
            end = end - 1;
        }
        proof {
            let upto = text@.lines.take(end as int);
            if end > 0 {
                assert(upto.last() == text.lines[end - 1]@);
            }
        }
        end
    }
}

} // verus!
