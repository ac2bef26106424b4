//! What holds of every clip: rows fit the width, a document that fits stays
//! as it is, a clip clipped again does not change, and no span changes its
//! style.

use crate::clip::clip_of;
use crate::clip::clipped;
use crate::clip::lemma_renderable_lines_bound;
use crate::clip::line_blank;
use crate::clip::parsed;
use crate::clip::renderable_lines;
use crate::clip::shown;
use crate::clip::visible_row_starts;
use crate::document::DocumentView;
use crate::document::LineView;
use crate::document::SpanView;
use crate::rows::lemma_line_cell_source;
use crate::rows::lemma_row_start_line;
use crate::rows::lemma_row_starts_extend;
use crate::rows::lemma_wrap_start_cell;
use crate::rows::line_cells;
use crate::rows::line_starts;
use crate::rows::row_fill;
use crate::rows::row_starts;
use crate::rows::starts_row;
use crate::rows::Cell;
use crate::slice::anchor_spans;
use crate::slice::kept_spans;
use crate::slice::sliced;
use crate::slice::sliced_line;
use crate::wrap_laws::cell_widths;
use crate::wrap_laws::lemma_anchor_widths;
use crate::wrap_laws::lemma_fill_after_row_start;
use crate::wrap_laws::lemma_fill_by_widths;
use crate::wrap_laws::lemma_kept_spans_widths;
use crate::wrap_laws::lemma_wrap_count_any_line;
use crate::wrap_laws::line_widths;
use crate::wrap_laws::wrap_count;
use vstd::prelude::*;

verus! {

/// Total width of the cells `from..to`.
pub open spec fn cells_width(cells: Seq<Cell>, from: int, to: int) -> nat
    decreases to - from,
{
    if to <= from {
        0
    } else {
        cells_width(cells, from, to - 1) + cells[to - 1].width
    }
}

/// The cells `from..to` of a line are one display row: the row begins with
/// the line or at a wrap point, no wrap point lies within it, and it ends
/// with the line or before the next wrap point.
pub open spec fn is_row(cells: Seq<Cell>, max_columns: nat, from: int, to: int) -> bool {
    &&& 0 <= from <= to <= cells.len()
    &&& from == 0 || (from < to && starts_row(cells, max_columns, from))
    &&& to == cells.len() || starts_row(cells, max_columns, to)
    &&& forall|k: int| from < k < to ==> !starts_row(cells, max_columns, k)
}

/// Within a row the running width is the width of the cells placed so far,
/// and stays within the viewport while no cell of the row is wider than
/// that.
proof fn lemma_fill_is_row_width(cells: Seq<Cell>, max_columns: nat, from: int, k: int)
    requires
        0 <= from <= k <= cells.len(),
        from == 0 || (from < k && starts_row(cells, max_columns, from)),
        forall|i: int| from < i < k ==> !starts_row(cells, max_columns, i),
        forall|i: int| from <= i < k ==> (#[trigger] cells[i]).width <= max_columns,
    ensures
        row_fill(cells, max_columns, k) == cells_width(cells, from, k),
        row_fill(cells, max_columns, k) <= max_columns,
    decreases k - from,
{
    if k > from + 1 {
        lemma_fill_is_row_width(cells, max_columns, from, k - 1);
        assert(!starts_row(cells, max_columns, k - 1));
        assert(cells[k - 1].width <= max_columns);
        assert(row_fill(cells, max_columns, k) == row_fill(cells, max_columns, k - 1) + cells[k
            - 1].width);
    } else if k == from + 1 {
        assert(cells_width(cells, from, from) == 0);
        assert(cells_width(cells, from, k) == cells[from].width);
        if from == 0 {
            assert(row_fill(cells, max_columns, 0) == 0);
        } else {
            assert(starts_row(cells, max_columns, from));
        }
        assert(row_fill(cells, max_columns, k) == cells[from].width);
    } else {
        assert(from == 0);
    }
}

/// No display row is wider than the viewport, unless a single character of
/// that row is: wrapping puts a character on the next row as soon as it would
/// pass the last column.
pub proof fn lemma_row_fits(cells: Seq<Cell>, max_columns: nat, from: int, to: int)
    requires
        is_row(cells, max_columns, from, to),
        forall|i: int| from <= i < to ==> (#[trigger] cells[i]).width <= max_columns,
    ensures
        cells_width(cells, from, to) <= max_columns,
{
    lemma_fill_is_row_width(cells, max_columns, from, to);
}

/// No display row of a clip is wider than the viewport, unless a single
/// character of that row is.
pub proof fn lemma_clip_rows_fit(
    content: Seq<char>,
    max_rows: nat,
    max_columns: nat,
    color_output: bool,
    line: int,
    from: int,
    to: int,
)
    requires
        0 <= line < clip_of(content, max_rows, max_columns, color_output).lines.len(),
        ({
            let cells = line_cells(
                clip_of(content, max_rows, max_columns, color_output).lines[line].spans,
            );
            &&& is_row(cells, max_columns, from, to)
            &&& forall|i: int| from <= i < to ==> (#[trigger] cells[i]).width <= max_columns
        }),
    ensures
        cells_width(
            line_cells(clip_of(content, max_rows, max_columns, color_output).lines[line].spans),
            from,
            to,
        ) <= max_columns,
{
    lemma_row_fits(
        line_cells(clip_of(content, max_rows, max_columns, color_output).lines[line].spans),
        max_columns,
        from,
        to,
    );
}

/// A document that has no more display rows than the viewport is shown as it
/// is.
pub proof fn lemma_fitting_document_unchanged(
    document: DocumentView,
    max_rows: nat,
    max_columns: nat,
)
    requires
        max_rows > 0,
        max_columns > 0,
        visible_row_starts(document, max_columns).len() <= max_rows,
    ensures
        clipped(document, max_rows, max_columns) == document,
{
}

/// Pane text whose display rows all fit the viewport is shown whole: as
/// decoded, or all plain where colours are off.
pub proof fn lemma_fitting_text_unchanged(
    content: Seq<char>,
    max_rows: nat,
    max_columns: nat,
    color_output: bool,
)
    requires
        content.len() > 0,
        max_rows > 0,
        max_columns > 0,
        visible_row_starts(shown(parsed(content), color_output), max_columns).len() <= max_rows,
    ensures
        clip_of(content, max_rows, max_columns, color_output) == shown(
            parsed(content),
            color_output,
        ),
{
}

/// A line shows nothing exactly when it has no cell.
pub proof fn lemma_blank_no_cells(spans: Seq<SpanView>)
    ensures
        line_cells(spans).len() == 0 <==> forall|i: int|
            0 <= i < spans.len() ==> (#[trigger] spans[i]).content.len() == 0,
    decreases spans.len(),
{
    if spans.len() > 0 {
        let head = spans.drop_last();
        lemma_blank_no_cells(head);
        if line_cells(spans).len() == 0 {
            assert forall|i: int| 0 <= i < spans.len() implies (#[trigger] spans[i]).content.len()
                == 0 by {
                if i < head.len() {
                    assert(spans[i] == head[i]);
                }
            }
        } else if spans.last().content.len() == 0 {
            let i = choose|i: int| 0 <= i < head.len() && (#[trigger] head[i]).content.len() != 0;
            assert(spans[i] == head[i]);
        }
    }
}

/// Behind the last line that shows something every line shows nothing.
pub proof fn lemma_renderable_lines_last(lines: Seq<LineView>)
    ensures
        renderable_lines(lines) <= lines.len(),
        renderable_lines(lines) > 0 ==> !line_blank(lines[renderable_lines(lines) - 1]),
        forall|i: int| renderable_lines(lines) <= i < lines.len() ==> line_blank(#[trigger] lines[i]),
    decreases lines.len(),
{
    if lines.len() > 0 && line_blank(lines.last()) {
        let head = lines.drop_last();
        lemma_renderable_lines_last(head);
        assert forall|i: int| renderable_lines(lines) <= i < lines.len() implies line_blank(
            #[trigger] lines[i],
        ) by {
            if i < head.len() {
                assert(lines[i] == head[i]);
            }
        }
    }
}

/// The number of lines up to the last one that shows something is the only
/// one behind which every line shows nothing and before which one does.
pub proof fn lemma_renderable_lines_unique(lines: Seq<LineView>, n: int)
    requires
        0 <= n <= lines.len(),
        n > 0 ==> !line_blank(lines[n - 1]),
        forall|i: int| n <= i < lines.len() ==> line_blank(#[trigger] lines[i]),
    ensures
        renderable_lines(lines) == n,
    decreases lines.len(),
{
    if lines.len() > 0 {
        if n < lines.len() {
            let head = lines.drop_last();
            assert(line_blank(lines[lines.len() - 1]));
            assert forall|i: int| n <= i < head.len() implies line_blank(#[trigger] head[i]) by {
                assert(head[i] == lines[i]);
            }
            if n > 0 {
                assert(head[n - 1] == lines[n - 1]);
            }
            lemma_renderable_lines_unique(head, n);
        }
    }
}

/// Lines of equal widths have as many display rows.
proof fn lemma_line_rows_by_widths(a: LineView, a_index: nat, b: LineView, b_index: nat, max_columns: nat)
    requires
        line_widths(a.spans) == line_widths(b.spans),
    ensures
        line_starts(a, max_columns, a_index).len() == line_starts(b, max_columns, b_index).len(),
{
    let a_cells = line_cells(a.spans);
    let b_cells = line_cells(b.spans);
    assert(cell_widths(a_cells).len() == a_cells.len());
    assert(cell_widths(b_cells).len() == b_cells.len());
    lemma_fill_by_widths(a_cells, b_cells, max_columns, a_cells.len() as int);
    lemma_wrap_count_any_line(a_cells, max_columns, a_index, a_cells.len() as int);
    lemma_wrap_count_any_line(b_cells, max_columns, b_index, b_cells.len() as int);
}

/// Where the lines of `cut` after its first have the widths of the lines of
/// `whole` from `offset + 1` on, both have as many display rows there.
proof fn lemma_tail_row_count(
    whole: Seq<LineView>,
    cut: Seq<LineView>,
    max_columns: nat,
    offset: int,
    n: int,
)
    requires
        0 <= offset,
        1 <= n <= cut.len(),
        offset + n <= whole.len(),
        forall|i: int|
            1 <= i < n ==> line_widths((#[trigger] cut[i]).spans) == line_widths(
                whole[offset + i].spans,
            ),
    ensures
        row_starts(cut, max_columns, n).len() - row_starts(cut, max_columns, 1).len() == row_starts(
            whole,
            max_columns,
            offset + n,
        ).len() - row_starts(whole, max_columns, offset + 1).len(),
    decreases n,
{
    if n > 1 {
        lemma_tail_row_count(whole, cut, max_columns, offset, n - 1);
        assert(line_widths(cut[n - 1].spans) == line_widths(whole[offset + n - 1].spans));
        lemma_line_rows_by_widths(
            cut[n - 1],
            (n - 1) as nat,
            whole[offset + n - 1],
            (offset + n - 1) as nat,
            max_columns,
        );
    }
}

/// The widths of the first line of a document cut at one of its row starts:
/// the widths of the cells from that row start on.
proof fn lemma_anchor_line_widths(
    lines: Seq<LineView>,
    max_columns: nat,
    line: int,
    t: int,
) -> (k: int)
    requires
        0 <= line < lines.len(),
        0 <= t < line_starts(lines[line], max_columns, line as nat).len(),
    ensures
        0 <= k <= line_cells(lines[line].spans).len(),
        t == 0 ==> k == 0,
        t > 0 ==> k < line_cells(lines[line].spans).len() && starts_row(
            line_cells(lines[line].spans),
            max_columns,
            k,
        ) && wrap_count(line_cells(lines[line].spans), max_columns, k + 1) == t,
        line_widths(
            sliced_line(
                lines[line],
                true,
                line_starts(lines[line], max_columns, line as nat)[t],
            ).spans,
        ) == line_widths(lines[line].spans).skip(k),
{
    let spans = lines[line].spans;
    let cells = line_cells(spans);
    let cursor = line_starts(lines[line], max_columns, line as nat)[t];
    lemma_kept_spans_widths(anchor_spans(spans, cursor.span, cursor.byte));
    if t == 0 {
        if spans.len() > 0 {
            lemma_anchor_widths(spans, 0, 0);
            assert(spans.take(0) =~= Seq::<SpanView>::empty());
            assert(line_widths(spans).skip(0) =~= line_widths(spans));
        } else {
            assert(line_widths(spans).skip(0) =~= line_widths(spans));
        }
        0
    } else {
        let k = lemma_wrap_start_cell(cells, max_columns, line as nat, cells.len() as int, t - 1);
        lemma_line_cell_source(spans, k);
        let cell = cells[k];
        let before = line_cells(spans.take(cell.span as int)).len();
        lemma_anchor_widths(spans, cell.span as int, k - before);
        lemma_wrap_count_any_line(cells, max_columns, line as nat, k);
        lemma_wrap_count_any_line(cells, max_columns, line as nat, k + 1);
        k
    }
}

/// A clip has no more display rows than the viewport: where the document
/// has more, exactly as many.
pub proof fn lemma_clip_row_count(document: DocumentView, max_rows: nat, max_columns: nat)
    ensures
        visible_row_starts(clipped(document, max_rows, max_columns), max_columns).len() <= max_rows,
        max_rows > 0 && max_columns > 0 && visible_row_starts(document, max_columns).len()
            > max_rows ==> visible_row_starts(
            clipped(document, max_rows, max_columns),
            max_columns,
        ).len() == max_rows,
{
    let lines = document.lines;
    let limit = renderable_lines(lines) as int;
    let starts = visible_row_starts(document, max_columns);
    if max_rows == 0 || max_columns == 0 {
        assert(renderable_lines(DocumentView::empty().lines) == 0);
    } else if starts.len() > max_rows {
        let at = starts.len() - max_rows;
        let cursor = starts[at];
        let cut = sliced(document, cursor).lines;
        lemma_renderable_lines_last(lines);
        let line = lemma_row_start_line(lines, max_columns, limit, at);
        let base = row_starts(lines, max_columns, line).len();
        let t = at - base;
        let spans = lines[line].spans;
        let cells = line_cells(spans);
        assert(cursor.line == line);
        assert(cut.len() == lines.len() - line);
        let k = lemma_anchor_line_widths(lines, max_columns, line, t);
        assert(cut[0] == sliced_line(lines[line], true, cursor));
        let first_cells = line_cells(cut[0].spans);
        assert forall|i: int| 1 <= i < cut.len() implies line_widths((#[trigger] cut[i]).spans)
            == line_widths(lines[line + i].spans) by {
            lemma_kept_spans_widths(lines[line + i].spans);
        }
        // The cut document shows something up to the same last line.
        let kept = limit - line;
        assert forall|i: int| kept <= i < cut.len() implies line_blank(#[trigger] cut[i]) by {
            lemma_blank_no_cells(cut[i].spans);
            lemma_blank_no_cells(lines[line + i].spans);
            assert(line_blank(lines[line + i]));
            assert(line_widths(cut[i].spans).len() == line_cells(cut[i].spans).len());
            assert(line_widths(lines[line + i].spans).len() == line_cells(
                lines[line + i].spans,
            ).len());
        }
        assert(!line_blank(cut[kept - 1])) by {
            lemma_blank_no_cells(cut[kept - 1].spans);
            lemma_blank_no_cells(lines[limit - 1].spans);
            assert(line_widths(cut[kept - 1].spans).len() == line_cells(cut[kept - 1].spans).len());
            assert(line_widths(lines[limit - 1].spans).len() == line_cells(
                lines[limit - 1].spans,
            ).len());
            if kept - 1 == 0 {
                assert(line_widths(spans).skip(k).len() == line_widths(spans).len() - k);
            }
        }
        lemma_renderable_lines_unique(cut, kept);
        // Count the rows of the cut document.
        lemma_tail_row_count(lines, cut, max_columns, line, kept);
        lemma_row_starts_extend(lines, max_columns, line + 1, limit);
        assert(cell_widths(first_cells) == cell_widths(cells).skip(k));
        assert(cell_widths(cells).skip(k) =~= cell_widths(cells.skip(k)));
        assert(cell_widths(first_cells).len() == first_cells.len());
        lemma_fill_by_widths(first_cells, cells.skip(k), max_columns, first_cells.len() as int);
        lemma_wrap_count_any_line(first_cells, max_columns, 0, first_cells.len() as int);
        lemma_wrap_count_any_line(cells, max_columns, line as nat, cells.len() as int);
        assert(row_starts(cut, max_columns, 0).len() == 0);
        assert(row_starts(cut, max_columns, 1).len() == 1 + wrap_count(
            first_cells,
            max_columns,
            first_cells.len() as int,
        ));
        assert(row_starts(lines, max_columns, line + 1).len() == base + 1 + wrap_count(
            cells,
            max_columns,
            cells.len() as int,
        ));
        if t == 0 {
            assert(cells.skip(0) =~= cells);
        } else {
            lemma_fill_after_row_start(cells, max_columns, k, cells.len() as int);
        }
    }
}

/// Clipping a clip again, to the same viewport, changes nothing.
pub proof fn lemma_clip_idempotent(document: DocumentView, max_rows: nat, max_columns: nat)
    ensures
        clipped(clipped(document, max_rows, max_columns), max_rows, max_columns) == clipped(
            document,
            max_rows,
            max_columns,
        ),
{
    lemma_clip_row_count(document, max_rows, max_columns);
}

/// Every kept span is one of the spans it was chosen from, and the kept spans
/// stand in their old order.
proof fn lemma_kept_span_source(spans: Seq<SpanView>, j: int) -> (source: int)
    requires
        0 <= j < kept_spans(spans).len(),
    ensures
        j <= source < spans.len(),
        kept_spans(spans)[j] == spans[source],
    decreases spans.len(),
{
    let head = spans.drop_last();
    if j < kept_spans(head).len() {
        let source = lemma_kept_span_source(head, j);
        assert(head[source] == spans[source]);
        source
    } else {
        lemma_kept_span_source_bound(head);
        spans.len() - 1
    }
}

proof fn lemma_kept_span_source_bound(spans: Seq<SpanView>)
    ensures
        kept_spans(spans).len() <= spans.len(),
    decreases spans.len(),
{
    if spans.len() > 0 {
        lemma_kept_span_source_bound(spans.drop_last());
    }
}

/// No span is restyled by a clip: every span of the clip is a span of the
/// document, in the line that stands as many lines before the end, with the
/// style it had there and with its content, or with the end of its content
/// where the cut falls inside it. The result names that line and span.
pub proof fn lemma_clip_keeps_styles(
    document: DocumentView,
    max_rows: nat,
    max_columns: nat,
    line: int,
    span: int,
) -> (source: (int, int))
    requires
        0 <= line < clipped(document, max_rows, max_columns).lines.len(),
        0 <= span < clipped(document, max_rows, max_columns).lines[line].spans.len(),
    ensures
        ({
            let clip = clipped(document, max_rows, max_columns);
            let shown = clip.lines[line].spans[span];
            let (source_line, source_span) = source;
            &&& clip.lines.len() <= document.lines.len()
            &&& source_line == line + (document.lines.len() - clip.lines.len())
            &&& 0 <= source_span < document.lines[source_line].spans.len()
            &&& shown.style == document.lines[source_line].spans[source_span].style
            &&& exists|k: int|
                0 <= k <= document.lines[source_line].spans[source_span].content.len()
                    && shown.content == #[trigger] document.lines[source_line].spans[source_span].content.skip(
                    k,
                )
        }),
{
    let clip = clipped(document, max_rows, max_columns);
    let starts = visible_row_starts(document, max_columns);
    if starts.len() <= max_rows {
        let content = document.lines[line].spans[span].content;
        assert(content == content.skip(0));
        (line, span)
    } else {
        let at = starts.len() - max_rows;
        let cursor = starts[at];
        let limit = renderable_lines(document.lines) as int;
        lemma_renderable_lines_bound(document.lines);
        let anchor = lemma_row_start_line(document.lines, max_columns, limit, at);
        assert(cursor.line == anchor);
        let source_line = line + anchor;
        let spans = document.lines[source_line].spans;
        if line == 0 {
            let from = anchor_spans(spans, cursor.span, cursor.byte);
            let m = lemma_kept_span_source(from, span);
            if m == 0 {
                let content = spans[cursor.span as int].content;
                let k = crate::slice::index_at_byte(content, cursor.byte, 0);
                lemma_index_in_range(content, cursor.byte, 0);
                assert(from[0].content == content.skip(k));
                (source_line, cursor.span as int)
            } else {
                let source_span = cursor.span + m;
                let content = spans[source_span].content;
                assert(content == content.skip(0));
                (source_line, source_span)
            }
        } else {
            let source_span = lemma_kept_span_source(spans, span);
            let content = spans[source_span].content;
            assert(content == content.skip(0));
            (source_line, source_span)
        }
    }
}

proof fn lemma_index_in_range(content: Seq<char>, byte: nat, from: int)
    requires
        0 <= from <= content.len(),
    ensures
        from <= crate::slice::index_at_byte(content, byte, from) <= content.len(),
    decreases content.len() - from,
{
    if from < content.len() && crate::metrics::byte_offset(content, from) < byte {
        lemma_index_in_range(content, byte, from + 1);
    }
}

/// A clip keeps the style and alignment of the document and of every line
/// that it shows.
pub proof fn lemma_clip_keeps_line_styles(
    document: DocumentView,
    max_rows: nat,
    max_columns: nat,
    line: int,
)
    requires
        0 <= line < clipped(document, max_rows, max_columns).lines.len(),
    ensures
        ({
            let clip = clipped(document, max_rows, max_columns);
            let source_line = line + (document.lines.len() - clip.lines.len());
            &&& clip.lines.len() <= document.lines.len()
            &&& clip.style == document.style
            &&& clip.alignment == document.alignment
            &&& clip.lines[line].style == document.lines[source_line].style
            &&& clip.lines[line].alignment == document.lines[source_line].alignment
        }),
{
    let starts = visible_row_starts(document, max_columns);
    if starts.len() > max_rows {
        let at = starts.len() - max_rows;
        let limit = renderable_lines(document.lines) as int;
        lemma_renderable_lines_bound(document.lines);
        let anchor = lemma_row_start_line(document.lines, max_columns, limit, at);
    }
}

} // verus!
