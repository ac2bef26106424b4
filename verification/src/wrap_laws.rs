//! Facts about wrapping that the clip laws rest on: only the widths of the
//! cells decide where rows begin, and a line cut at a row start wraps as the
//! rest of the line did.

use crate::document::SpanView;
use crate::metrics::byte_offset;
use crate::metrics::column_width;
use crate::rows::line_cells;
use crate::rows::row_fill;
use crate::rows::span_cells;
use crate::rows::starts_row;
use crate::rows::wrap_starts;
use crate::rows::wraps;
use crate::rows::Cell;
use crate::slice::anchor_spans;
use crate::slice::kept_spans;
use crate::slice::lemma_offset_is_boundary;
use vstd::prelude::*;

verus! {

/// The widths of a run of cells, in order.
pub open spec fn cell_widths(cells: Seq<Cell>) -> Seq<nat> {
    cells.map_values(|cell: Cell| cell.width)
}

/// The display widths of the characters of `content`, in order.
pub open spec fn content_widths(content: Seq<char>) -> Seq<nat> {
    content.map_values(|c: char| column_width(c))
}

/// The display widths of the characters of a line, in order.
pub open spec fn line_widths(spans: Seq<SpanView>) -> Seq<nat> {
    cell_widths(line_cells(spans))
}

/// Number of rows that wrapping starts among the first `n` cells.
pub open spec fn wrap_count(cells: Seq<Cell>, max_columns: nat, n: int) -> nat {
    wrap_starts(cells, max_columns, 0, n).len()
}

/// The line number that the row starts carry does not change their number.
pub proof fn lemma_wrap_count_any_line(cells: Seq<Cell>, max_columns: nat, line: nat, n: int)
    ensures
        wrap_starts(cells, max_columns, line, n).len() == wrap_count(cells, max_columns, n),
    decreases n,
{
    if n > 0 {
        lemma_wrap_count_any_line(cells, max_columns, line, n - 1);
    }
}

/// Cells of equal widths fill their rows alike.
pub proof fn lemma_fill_by_widths(a: Seq<Cell>, b: Seq<Cell>, max_columns: nat, n: int)
    requires
        cell_widths(a) == cell_widths(b),
        0 <= n <= a.len(),
    ensures
        row_fill(a, max_columns, n) == row_fill(b, max_columns, n),
        wrap_count(a, max_columns, n) == wrap_count(b, max_columns, n),
    decreases n,
{
    if n > 0 {
        lemma_fill_by_widths(a, b, max_columns, n - 1);
        assert(cell_widths(a).len() == a.len());
        assert(cell_widths(b).len() == b.len());
        assert(a[n - 1].width == cell_widths(a)[n - 1]);
        assert(b[n - 1].width == cell_widths(b)[n - 1]);
    }
}

/// A line cut at a row start fills its rows as the rest of the line did.
pub proof fn lemma_fill_after_row_start(cells: Seq<Cell>, max_columns: nat, k: int, n: int)
    requires
        0 <= k < n <= cells.len(),
        k == 0 || starts_row(cells, max_columns, k),
    ensures
        row_fill(cells.skip(k), max_columns, n - k) == row_fill(cells, max_columns, n),
        wrap_count(cells.skip(k), max_columns, n - k) + wrap_count(cells, max_columns, k + 1)
            == wrap_count(cells, max_columns, n),
    decreases n,
{
    let rest = cells.skip(k);
    assert(rest[n - k - 1] == cells[n - 1]);
    if n == k + 1 {
        assert(row_fill(rest, max_columns, 0) == 0);
        assert(wrap_count(rest, max_columns, 0) == 0);
        assert(!starts_row(rest, max_columns, 0));
        assert(wrap_starts(rest, max_columns, 0, 1) =~= wrap_starts(rest, max_columns, 0, 0));
    } else {
        lemma_fill_after_row_start(cells, max_columns, k, n - 1);
    }
}

/// The widths of a span's cells are the widths of its characters.
pub proof fn lemma_span_cells_widths(content: Seq<char>, span: nat)
    ensures
        cell_widths(span_cells(content, span)) == content_widths(content),
{
    assert(cell_widths(span_cells(content, span)) =~= content_widths(content));
}

/// The widths of a line are those of its spans, one after the other.
pub proof fn lemma_line_widths_concat(a: Seq<SpanView>, b: Seq<SpanView>)
    ensures
        line_widths(a + b) == line_widths(a) + line_widths(b),
    decreases b.len(),
{
    if b.len() == 0 {
        assert(a + b =~= a);
        assert(line_widths(a) + line_widths(b) =~= line_widths(a));
    } else {
        assert((a + b).drop_last() =~= a + b.drop_last());
        assert((a + b).last() == b.last());
        lemma_line_widths_concat(a, b.drop_last());
        lemma_span_cells_widths(b.last().content, (a.len() + b.len() - 1) as nat);
        lemma_span_cells_widths(b.last().content, (b.len() - 1) as nat);
        assert(line_widths(a + b) =~= line_widths(a + b.drop_last()) + content_widths(
            b.last().content,
        ));
        assert(line_widths(b) =~= line_widths(b.drop_last()) + content_widths(b.last().content));
        assert(line_widths(a + b) =~= line_widths(a) + line_widths(b));
    }
}

/// The widths of a line of one span.
pub proof fn lemma_line_widths_single(span: SpanView)
    ensures
        line_widths(seq![span]) == content_widths(span.content),
{
    let one = seq![span];
    assert(one.drop_last() =~= Seq::<SpanView>::empty());
    assert(one.last() == span);
    lemma_span_cells_widths(span.content, 0);
    assert(line_cells(one.drop_last()) =~= Seq::<Cell>::empty());
    assert(line_cells(one) =~= span_cells(span.content, 0));
}

/// Dropping the spans without characters leaves the widths of a line as they
/// were.
pub proof fn lemma_kept_spans_widths(spans: Seq<SpanView>)
    ensures
        line_widths(kept_spans(spans)) == line_widths(spans),
    decreases spans.len(),
{
    if spans.len() > 0 {
        let head = spans.drop_last();
        let last = spans.last();
        lemma_kept_spans_widths(head);
        assert(spans =~= head + seq![last]);
        lemma_line_widths_concat(head, seq![last]);
        lemma_line_widths_single(last);
        if last.content.len() > 0 {
            assert(kept_spans(spans) =~= kept_spans(head) + seq![last]);
            lemma_line_widths_concat(kept_spans(head), seq![last]);
        } else {
            assert(content_widths(last.content) =~= Seq::<nat>::empty());
            assert(line_widths(head) + content_widths(last.content) =~= line_widths(head));
        }
    }
}

/// The widths of a line from a cursor on are the widths of the line without
/// those of the cells before the cursor.
pub proof fn lemma_anchor_widths(spans: Seq<SpanView>, span: int, j: int)
    requires
        0 <= span < spans.len(),
        0 <= j <= spans[span].content.len(),
    ensures
        line_cells(spans.take(span)).len() + j <= line_widths(spans).len(),
        line_widths(anchor_spans(spans, span as nat, byte_offset(spans[span].content, j)))
            == line_widths(spans).skip(line_cells(spans.take(span)).len() + j),
{
    let content = spans[span].content;
    let before = spans.take(span);
    let after = spans.skip(span + 1);
    let cut = SpanView { content: content.skip(j), style: spans[span].style };
    lemma_offset_is_boundary(content, j);
    assert(anchor_spans(spans, span as nat, byte_offset(content, j)) == seq![cut] + after);
    assert(spans =~= before + seq![spans[span]] + after);
    lemma_line_widths_concat(before + seq![spans[span]], after);
    lemma_line_widths_concat(before, seq![spans[span]]);
    lemma_line_widths_single(spans[span]);
    lemma_line_widths_concat(seq![cut], after);
    lemma_line_widths_single(cut);
    assert(content_widths(content.skip(j)) =~= content_widths(content).skip(j));
    let whole = line_widths(before) + content_widths(content) + line_widths(after);
    assert(line_widths(spans) == whole);
    assert(whole.skip(line_widths(before).len() + j) =~= content_widths(content).skip(j)
        + line_widths(after));
}

} // verus!
