//! Where the display rows of a document begin when it is wrapped to a width.
//!
//! A line is read as a sequence of cells, one per character. A running
//! width follows the cells of a line; a cell of nonzero width that no longer
//! fits on a row already begun starts the next row. Every line starts a row
//! of its own.

use crate::app::App;
use crate::document::LineView;
use crate::document::SpanView;
use crate::document::StyledDocument;
use crate::document::StyledLine;
use crate::metrics::byte_len;
use crate::metrics::byte_offset;
use crate::metrics::char_columns;
use crate::metrics::char_len_utf8;
use crate::metrics::column_width;
use crate::metrics::lemma_byte_offset_grows;
use crate::metrics::str_byte_len;
use crate::row_cursor::cursor_views;
use crate::row_cursor::CursorView;
use crate::row_cursor::RowCursor;
use vstd::prelude::*;

verus! {

/// One character of a line: the span that holds it, its byte offset within
/// that span, and the columns it occupies.
pub struct Cell {
    pub span: nat,
    pub byte: nat,
    pub width: nat,
}

/// The cells of one span.
pub open spec fn span_cells(content: Seq<char>, span: nat) -> Seq<Cell> {
    Seq::new(
        content.len(),
        |i: int| Cell { span, byte: byte_offset(content, i), width: column_width(content[i]) },
    )
}

/// The cells of a line: those of its spans, from left to right.
pub open spec fn line_cells(spans: Seq<SpanView>) -> Seq<Cell>
    decreases spans.len(),
{
    if spans.len() == 0 {
        Seq::empty()
    } else {
        line_cells(spans.drop_last()) + span_cells(
            spans.last().content,
            (spans.len() - 1) as nat,
        )
    }
}

/// The cell at index `i` does not fit on the row that holds `fill` columns
/// already, and so starts the next row.
pub open spec fn wraps(fill: nat, width: nat, max_columns: nat) -> bool {
    width > 0 && fill > 0 && fill + width > max_columns
}

/// Columns taken on the current row once the first `n` cells are placed.
pub open spec fn row_fill(cells: Seq<Cell>, max_columns: nat, n: int) -> nat
    decreases n,
{
    if n <= 0 {
        0
    } else {
        let fill = row_fill(cells, max_columns, n - 1);
        let width = cells[n - 1].width;
        if wraps(fill, width, max_columns) {
            width
        } else {
            fill + width
        }
    }
}

/// The cell at index `i` starts a row by wrapping.
pub open spec fn starts_row(cells: Seq<Cell>, max_columns: nat, i: int) -> bool {
    wraps(row_fill(cells, max_columns, i), cells[i].width, max_columns)
}

/// The row starts that wrapping puts among the first `n` cells of line
/// `line`, in order.
pub open spec fn wrap_starts(cells: Seq<Cell>, max_columns: nat, line: nat, n: int) -> Seq<
    CursorView,
>
    decreases n,
{
    if n <= 0 {
        Seq::empty()
    } else {
        let earlier = wrap_starts(cells, max_columns, line, n - 1);
        if starts_row(cells, max_columns, n - 1) {
            earlier.push(CursorView { line, span: cells[n - 1].span, byte: cells[n - 1].byte })
        } else {
            earlier
        }
    }
}

/// The row starts of one line: its own beginning, then its wrap points.
pub open spec fn line_starts(line: LineView, max_columns: nat, index: nat) -> Seq<CursorView> {
    let cells = line_cells(line.spans);
    seq![CursorView { line: index, span: 0, byte: 0 }] + wrap_starts(
        cells,
        max_columns,
        index,
        cells.len() as int,
    )
}

/// The row starts of the first `limit` lines, in display order.
pub open spec fn row_starts(lines: Seq<LineView>, max_columns: nat, limit: int) -> Seq<CursorView>
    decreases limit,
{
    if limit <= 0 {
        Seq::empty()
    } else {
        row_starts(lines, max_columns, limit - 1) + line_starts(
            lines[limit - 1],
            max_columns,
            (limit - 1) as nat,
        )
    }
}

/// The cells of a line's first `count` spans are the first cells of the line,
/// and the cells of span `count` follow them.
pub proof fn lemma_line_cells_prefix(spans: Seq<SpanView>, count: int)
    requires
        0 <= count <= spans.len(),
    ensures
        line_cells(spans.take(count)).len() <= line_cells(spans).len(),
        line_cells(spans.take(count)) == line_cells(spans).take(
            line_cells(spans.take(count)).len() as int,
        ),
        count < spans.len() ==> line_cells(spans.take(count + 1)) == line_cells(spans.take(count))
            + span_cells(spans[count].content, count as nat),
    decreases spans.len() - count,
{
    if count < spans.len() {
        let next = spans.take(count + 1);
        assert(next.drop_last() =~= spans.take(count));
        assert(next.last() == spans[count]);
        lemma_line_cells_prefix(spans, count + 1);
        let before = line_cells(spans.take(count));
        let after = line_cells(next);
        assert(before =~= after.take(before.len() as int));
        assert(before =~= line_cells(spans).take(before.len() as int));
    } else {
        assert(spans.take(count) =~= spans);
        assert(line_cells(spans) =~= line_cells(spans).take(line_cells(spans).len() as int));
    }
}

/// Every cell of a line belongs to a character of one of its spans.
pub proof fn lemma_line_cell_source(spans: Seq<SpanView>, k: int)
    requires
        0 <= k < line_cells(spans).len(),
    ensures
        ({
            let cell = line_cells(spans)[k];
            let before = line_cells(spans.take(cell.span as int)).len();
            &&& cell.span < spans.len()
            &&& before <= k < before + spans[cell.span as int].content.len()
            &&& cell == span_cells(spans[cell.span as int].content, cell.span)[k - before]
        }),
    decreases spans.len(),
{
    let head = spans.drop_last();
    let last = span_cells(spans.last().content, (spans.len() - 1) as nat);
    assert(spans.take(spans.len() - 1) =~= head);
    if k < line_cells(head).len() {
        lemma_line_cell_source(head, k);
        let cell = line_cells(head)[k];
        assert(head.take(cell.span as int) =~= spans.take(cell.span as int));
    }
}

/// Every row start that wrapping puts into a line is the position of a cell
/// that starts a row, and the starts come in the order of their cells.
pub proof fn lemma_wrap_start_cell(cells: Seq<Cell>, max_columns: nat, line: nat, n: int, t: int) -> (k:
    int)
    requires
        0 <= n <= cells.len(),
        0 <= t < wrap_starts(cells, max_columns, line, n).len(),
    ensures
        0 <= k < n,
        starts_row(cells, max_columns, k),
        wrap_starts(cells, max_columns, line, k).len() == t,
        wrap_starts(cells, max_columns, line, n)[t] == (CursorView {
            line,
            span: cells[k].span,
            byte: cells[k].byte,
        }),
    decreases n,
{
    let earlier = wrap_starts(cells, max_columns, line, n - 1);
    if t < earlier.len() {
        lemma_wrap_start_cell(cells, max_columns, line, n - 1, t)
    } else {
        n - 1
    }
}

/// The row starts of the first `upto` lines are the first row starts of any
/// longer run of lines.
pub proof fn lemma_row_starts_extend(lines: Seq<LineView>, max_columns: nat, upto: int, limit: int)
    requires
        0 <= upto <= limit,
    ensures
        row_starts(lines, max_columns, upto).len() <= row_starts(lines, max_columns, limit).len(),
        row_starts(lines, max_columns, upto) == row_starts(lines, max_columns, limit).take(
            row_starts(lines, max_columns, upto).len() as int,
        ),
    decreases limit - upto,
{
    if upto < limit {
        lemma_row_starts_extend(lines, max_columns, upto, limit - 1);
        let shorter = row_starts(lines, max_columns, limit - 1);
        let first = row_starts(lines, max_columns, upto);
        assert(first =~= row_starts(lines, max_columns, limit).take(first.len() as int));
    } else {
        let all = row_starts(lines, max_columns, limit);
        assert(all =~= all.take(all.len() as int));
    }
}

/// The line that holds the row start at index `i`: the row starts of the
/// lines before it come first, and the start is one of the line's own.
pub proof fn lemma_row_start_line(lines: Seq<LineView>, max_columns: nat, limit: int, i: int) -> (line:
    int)
    requires
        0 <= i < row_starts(lines, max_columns, limit).len(),
    ensures
        0 <= line < limit,
        row_starts(lines, max_columns, line).len() <= i < row_starts(
            lines,
            max_columns,
            line + 1,
        ).len(),
        row_starts(lines, max_columns, limit)[i] == line_starts(
            lines[line],
            max_columns,
            line as nat,
        )[i - row_starts(lines, max_columns, line).len()],
        row_starts(lines, max_columns, limit)[i].line == line,
    decreases limit,
{
    let earlier = row_starts(lines, max_columns, limit - 1);
    if i < earlier.len() {
        lemma_row_start_line(lines, max_columns, limit - 1, i)
    } else {
        let t = i - earlier.len();
        if t > 0 {
            let cells = line_cells(lines[limit - 1].spans);
            lemma_wrap_start_cell(cells, max_columns, (limit - 1) as nat, cells.len() as int, t - 1);
        }
        limit - 1
    }
}

/// Scans one span: appends the row starts that fall among its cells and
/// returns the running width behind its last cell.
fn scan_span(
    content: &str,
    line_index: usize,
    span_index: usize,
    max_columns: usize,
    fill: usize,
    starts: &mut Vec<RowCursor>,
    Ghost(cells): Ghost<Seq<Cell>>,
    Ghost(base): Ghost<int>,
    Ghost(earlier): Ghost<Seq<CursorView>>,
) -> (filled: usize)
    requires
        0 <= base,
        base + content@.len() <= cells.len(),
        cells.subrange(base, base + content@.len()) == span_cells(content@, span_index as nat),
        fill == row_fill(cells, max_columns as nat, base),
        cursor_views(old(starts)@) == earlier + wrap_starts(
            cells,
            max_columns as nat,
            line_index as nat,
            base,
        ),
    ensures
        filled == row_fill(cells, max_columns as nat, base + content@.len()),
        cursor_views(final(starts)@) == earlier + wrap_starts(
            cells,
            max_columns as nat,
            line_index as nat,
            base + content@.len(),
        ),
{
    let total = str_byte_len(content);
    let mut filled = fill;
    let mut byte_index: usize = 0;
    let chars = content.chars();
    proof {
        vstd::string::axiom_spec_iter(content);
    }
    for ch in it: chars
        invariant
            it.seq() == content@,
            0 <= base,
            base + content@.len() <= cells.len(),
            cells.subrange(base, base + content@.len()) == span_cells(content@, span_index as nat),
            total == byte_len(content@),
            byte_index == byte_offset(content@, it.index()),
            filled == row_fill(cells, max_columns as nat, base + it.index()),
            cursor_views(starts@) == earlier + wrap_starts(
                cells,
                max_columns as nat,
                line_index as nat,
                base + it.index(),
            ),
    {
        let ghost i = it.index();
        let ghost cell = cells[base + i];
        proof {
            assert(cell == cells.subrange(base, base + content@.len())[i]);
            assert(cell == span_cells(content@, span_index as nat)[i]);
            lemma_byte_offset_grows(content@, i + 1, content@.len() as int);
        }
        let width = char_columns(ch);
        let len = char_len_utf8(ch);
        if width > 0 {
            if filled > 0 && (filled > max_columns || width > max_columns - filled) {
                let cursor = RowCursor { byte_index, line_index, span_index };
                let ghost before = cursor_views(starts@);
                starts.push(cursor);
                assert(cursor_views(starts@) =~= before.push(cursor@));
                assert(earlier + wrap_starts(cells, max_columns as nat, line_index as nat, base + i + 1)
                    =~= (earlier + wrap_starts(cells, max_columns as nat, line_index as nat, base + i)).push(
                    cursor@,
                ));
                filled = width;
            } else {
                filled = filled + width;
            }
        }
        byte_index = byte_index + len;
    }
    filled
}

/// Scans one line: appends the row starts that wrapping puts into it.
fn scan_line(
    line: &StyledLine,
    line_index: usize,
    max_columns: usize,
    starts: &mut Vec<RowCursor>,
    Ghost(earlier): Ghost<Seq<CursorView>>,
)
    requires
        cursor_views(old(starts)@) == earlier,
    ensures
        cursor_views(final(starts)@) == earlier + wrap_starts(
            line_cells(line@.spans),
            max_columns as nat,
            line_index as nat,
            line_cells(line@.spans).len() as int,
        ),
{
    let ghost spans = line@.spans;
    let ghost cells = line_cells(spans);
    let mut fill: usize = 0;
    let mut span_index: usize = 0;
    proof {
        assert(spans.take(0) =~= Seq::empty());
        assert(earlier + wrap_starts(cells, max_columns as nat, line_index as nat, 0) =~= earlier);
    }
    while span_index < line.spans.len()
        invariant
            spans == line@.spans,
            cells == line_cells(spans),
            span_index <= line.spans.len(),
            fill == row_fill(
                cells,
                max_columns as nat,
                line_cells(spans.take(span_index as int)).len() as int,
            ),
            cursor_views(starts@) == earlier + wrap_starts(
                cells,
                max_columns as nat,
                line_index as nat,
                line_cells(spans.take(span_index as int)).len() as int,
            ),
        decreases line.spans.len() - span_index,
    {
        let span = &line.spans[span_index];
        let ghost base = line_cells(spans.take(span_index as int)).len() as int;
        proof {
            lemma_line_cells_prefix(spans, span_index as int);
            lemma_line_cells_prefix(spans, span_index as int + 1);
            assert(spans[span_index as int].content == span.content@);
            let upto = line_cells(spans.take(span_index as int + 1));
            let own = span_cells(span.content@, span_index as nat);
            assert(upto == line_cells(spans.take(span_index as int)) + own);
            assert(upto == cells.take(upto.len() as int));
            assert(upto.len() == base + own.len());
            assert forall|i: int| 0 <= i < own.len() implies cells[base + i] == own[i] by {
                assert(cells[base + i] == upto[base + i]);
            }
            assert(cells.subrange(base, base + span.content@.len()) =~= own);
        }
        fill =
        scan_span(
            span.content.as_str(),
            line_index,
            span_index,
            max_columns,
            fill,
            starts,
            Ghost(cells),
            Ghost(base),
            Ghost(earlier),
        );
        span_index = span_index + 1;
    }
    proof {
        assert(spans.take(span_index as int) =~= spans);
    }
}

impl App {
    /// Lists where the display rows of the first `line_limit` lines of `text`
    /// begin when the text is wrapped to `max_columns` columns.
    pub fn collect_row_starts(text: &StyledDocument, max_columns: usize, line_limit: usize) -> (starts:
        Vec<RowCursor>)
        requires
            line_limit <= text.lines.len(),
        ensures
            cursor_views(starts@) == row_starts(
                text@.lines,
                max_columns as nat,
                line_limit as int,
            ),
    {
        let mut starts: Vec<RowCursor> = Vec::new();
        let mut line_index: usize = 0;
        proof {
            assert(cursor_views(starts@) =~= Seq::empty());
        }
        while line_index < line_limit
            invariant
                line_index <= line_limit <= text.lines.len(),
                cursor_views(starts@) == row_starts(
                    text@.lines,
                    max_columns as nat,
                    line_index as int,
                ),
            decreases line_limit - line_index,
        {
            let line = &text.lines[line_index];
            let cursor = RowCursor { byte_index: 0, line_index, span_index: 0 };
            let ghost before = cursor_views(starts@);
            starts.push(cursor);
            proof {
                assert(cursor_views(starts@) =~= before.push(cursor@));
                assert(text@.lines[line_index as int] == line@);
            }
            scan_line(line, line_index, max_columns, &mut starts, Ghost(before.push(cursor@)));
            proof {
                let wrapped = wrap_starts(
                    line_cells(line@.spans),
                    max_columns as nat,
                    line_index as nat,
                    line_cells(line@.spans).len() as int,
                );
                assert(before.push(cursor@) + wrapped =~= before + line_starts(
                    line@,
                    max_columns as nat,
                    line_index as nat,
                ));
            }
            line_index = line_index + 1;
        }
        starts
    }
}

} // verus!
