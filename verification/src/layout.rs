//! The grid that gives every pane its rectangle.

use crate::app::App;
use ratatui::layout::Constraint;
use ratatui::layout::Direction;
use ratatui::layout::Layout;
use ratatui::layout::Rect;
use vstd::prelude::*;

verus! {

/// An axis-aligned rectangle of terminal cells.
#[derive(Clone, Copy, Debug, PartialEq, Eq, Structural)]
pub struct PaneRegion {
    pub x: u16,
    pub y: u16,
    pub width: u16,
    pub height: u16,
}

/// How an area is divided: into bands one above the other, or into slices
/// side by side.
#[derive(Clone, Copy, Debug, PartialEq, Eq, Structural)]
pub enum Division {
    Bands,
    Slices,
}

/// Calls ratatui's `Layout::split` on `area`, in the direction that
/// `division` names, with `count` constraints `Ratio(numerator,
/// denominator)`. The layout solver decides where the parts begin and how
/// long they are. Claimed is what holds of every answer: the call returns
/// one rectangle per constraint; each spans the area across the direction
/// of the division; and each lies within the area along it, which the
/// solver is required to keep.
#[verifier::external_body]
fn split_area(area: PaneRegion, division: Division, count: usize, numerator: u32, denominator: u32) -> (parts:
    Vec<PaneRegion>)
    ensures
        divides(area, division, count as nat, parts@),
{
    let direction = match division {
        Division::Bands => Direction::Vertical,
        Division::Slices => Direction::Horizontal,
    };
    let constraints = vec![Constraint::Ratio(numerator, denominator); count];
    let area = Rect { x: area.x, y: area.y, width: area.width, height: area.height };
    let parts = Layout::default().direction(direction).constraints(constraints).split(area);
    parts.iter().map(|r| PaneRegion { x: r.x, y: r.y, width: r.width, height: r.height }).collect()
}

/// `part` is a part of `area` under the division: it reaches from one edge
/// of the area to the other across the direction of the division (a band is
/// as wide as the area, a slice as high), and lies within the area along it.
pub open spec fn part_of(area: PaneRegion, division: Division, part: PaneRegion) -> bool {
    match division {
        Division::Bands => {
            &&& part.x == area.x
            &&& part.width == area.width
            &&& area.y <= part.y
            &&& part.y + part.height <= area.y + area.height
        },
        Division::Slices => {
            &&& part.y == area.y
            &&& part.height == area.height
            &&& area.x <= part.x
            &&& part.x + part.width <= area.x + area.width
        },
    }
}

/// `parts` are `count` parts of `area` under the division.
pub open spec fn divides(area: PaneRegion, division: Division, count: nat, parts: Seq<PaneRegion>) -> bool {
    &&& parts.len() == count
    &&& forall|i: int| 0 <= i < parts.len() ==> part_of(area, division, #[trigger] parts[i])
}

/// `inner` lies within `outer`.
pub open spec fn region_within(outer: PaneRegion, inner: PaneRegion) -> bool {
    &&& outer.x <= inner.x
    &&& inner.x + inner.width <= outer.x + outer.width
    &&& outer.y <= inner.y
    &&& inner.y + inner.height <= outer.y + outer.height
}

/// `regions` are the cells of the grid that `bands` and `cells` make of
/// `area`, row by row: the area is divided into one band per row of the
/// grid, every band into one slice per column, and the region of pane `i`
/// is the slice of its column in the band of its row.
pub open spec fn grid_of(
    area: PaneRegion,
    pane_count: nat,
    bands: Seq<PaneRegion>,
    cells: Seq<Seq<PaneRegion>>,
    regions: Seq<PaneRegion>,
) -> bool {
    let columns = grid_columns(pane_count);
    let rows = grid_rows(pane_count);
    &&& regions.len() == pane_count
    &&& divides(area, Division::Bands, rows, bands)
    &&& cells.len() == rows
    &&& forall|r: int|
        0 <= r < rows ==> divides(bands[r], Division::Slices, columns, #[trigger] cells[r])
    &&& forall|i: int|
        0 <= i < pane_count ==> #[trigger] regions[i] == cells[i / (columns as int)][i % (
        columns as int)]
}

/// `regions` are a layout of `pane_count` panes on `area`: the cells of a
/// grid of bands and slices of the area, row by row.
pub open spec fn laid_out(area: PaneRegion, pane_count: nat, regions: Seq<PaneRegion>) -> bool {
    exists|bands: Seq<PaneRegion>, cells: Seq<Seq<PaneRegion>>| #[trigger]
        grid_of(area, pane_count, bands, cells, regions)
}

/// Row and column of a pane are what division by the number of columns
/// gives.
pub proof fn lemma_grid_place(columns: int, row: int, column: int)
    requires
        0 <= row,
        0 <= column < columns,
    ensures
        (row * columns + column) / columns == row,
        (row * columns + column) % columns == column,
{
    vstd::arithmetic::div_mod::lemma_fundamental_div_mod_converse(
        row * columns + column,
        columns,
        row,
        column,
    );
}

/// The row of every pane is a row of the grid.
pub proof fn lemma_grid_row_in_range(pane_count: nat, i: int)
    requires
        0 <= i < pane_count,
    ensures
        0 <= i / (grid_columns(pane_count) as int) < grid_rows(pane_count),
        0 <= i % (grid_columns(pane_count) as int) < grid_columns(pane_count),
{
    lemma_grid_columns(pane_count);
    lemma_grid_rows(pane_count);
    let columns = grid_columns(pane_count) as int;
    let rows = grid_rows(pane_count) as int;
    let row = i / columns;
    vstd::arithmetic::div_mod::lemma_fundamental_div_mod(i, columns);
    vstd::arithmetic::div_mod::lemma_mod_bound(i, columns);
    vstd::arithmetic::div_mod::lemma_div_pos_is_pos(i, columns);
    if row >= rows {
        assert(columns * row >= columns * rows) by (nonlinear_arith)
            requires
                row >= rows,
                columns >= 1,
        ;
        assert(columns * rows == rows * columns) by (nonlinear_arith);
    }
}

/// Every region of a layout lies within the area, and the regions of one
/// row of the grid begin at the same height and are equally high.
pub proof fn lemma_laid_out(area: PaneRegion, pane_count: nat, regions: Seq<PaneRegion>, i: int, j: int)
    requires
        laid_out(area, pane_count, regions),
        0 <= i < pane_count,
        0 <= j < pane_count,
    ensures
        region_within(area, regions[i]),
        i / (grid_columns(pane_count) as int) == j / (grid_columns(pane_count) as int)
            ==> regions[i].y == regions[j].y && regions[i].height == regions[j].height,
{
    let (bands, cells) = choose|bands: Seq<PaneRegion>, cells: Seq<Seq<PaneRegion>>| #[trigger]
        grid_of(area, pane_count, bands, cells, regions);
    let columns = grid_columns(pane_count) as int;
    lemma_grid_row_in_range(pane_count, i);
    lemma_grid_row_in_range(pane_count, j);
    let band = bands[i / columns];
    assert(divides(band, Division::Slices, columns as nat, cells[i / columns]));
    assert(part_of(band, Division::Slices, cells[i / columns][i % columns]));
    assert(part_of(area, Division::Bands, band));
    assert(divides(bands[j / columns], Division::Slices, columns as nat, cells[j / columns]));
    assert(part_of(bands[j / columns], Division::Slices, cells[j / columns][j % columns]));
}

/// Number of columns of the grid for `pane_count` panes: the side of the
/// smallest square that holds them, and one column where there is no pane.
pub open spec fn grid_columns(pane_count: nat) -> nat
    decreases pane_count,
{
    if pane_count == 0 {
        1
    } else {
        let fewer = grid_columns((pane_count - 1) as nat);
        if fewer * fewer >= pane_count {
            fewer
        } else {
            fewer + 1
        }
    }
}

/// Number of rows of the grid for `pane_count` panes: as many as the columns
/// need to hold them all.
pub open spec fn grid_rows(pane_count: nat) -> nat {
    let columns = grid_columns(pane_count) as int;
    ((pane_count + columns - 1) / columns) as nat
}

/// `columns` is the least number, from one on, whose square is no less than
/// `pane_count`.
pub open spec fn least_square_side(pane_count: nat, columns: nat) -> bool {
    &&& columns >= 1
    &&& columns * columns >= pane_count
    &&& columns == 1 || (columns - 1) * (columns - 1) < pane_count
}

/// The grid has as many columns as the smallest square that holds the panes.
pub proof fn lemma_grid_columns(pane_count: nat)
    ensures
        least_square_side(pane_count, grid_columns(pane_count)),
    decreases pane_count,
{
    if pane_count > 0 {
        lemma_grid_columns((pane_count - 1) as nat);
        let fewer = grid_columns((pane_count - 1) as nat);
        if fewer * fewer < pane_count {
            assert((fewer + 1) * (fewer + 1) >= pane_count) by (nonlinear_arith)
                requires
                    fewer * fewer >= pane_count - 1,
            ;
        } else if fewer > 1 {
            assert((fewer - 1) * (fewer - 1) < pane_count) by (nonlinear_arith)
                requires
                    (fewer - 1) * (fewer - 1) < pane_count - 1,
            ;
        }
    }
}

/// Only one number is the least whose square is no less than `pane_count`.
pub proof fn lemma_grid_columns_unique(pane_count: nat, columns: nat)
    requires
        least_square_side(pane_count, columns),
    ensures
        columns == grid_columns(pane_count),
{
    lemma_grid_columns(pane_count);
    let other = grid_columns(pane_count);
    if columns < other {
        assert(columns * columns <= (other - 1) * (other - 1)) by (nonlinear_arith)
            requires
                1 <= columns,
                columns <= other - 1,
        ;
    } else if other < columns {
        assert(other * other <= (columns - 1) * (columns - 1)) by (nonlinear_arith)
            requires
                1 <= other,
                other <= columns - 1,
        ;
    }
}

/// The rows of the grid hold all panes, and the last row holds at least one.
pub proof fn lemma_grid_rows(pane_count: nat)
    ensures
        grid_rows(pane_count) * grid_columns(pane_count) >= pane_count,
        pane_count == 0 ==> grid_rows(pane_count) == 0,
        pane_count > 0 ==> grid_rows(pane_count) >= 1 && (grid_rows(pane_count) - 1) * grid_columns(
            pane_count,
        ) < pane_count,
        grid_rows(pane_count) <= grid_columns(pane_count),
{
    lemma_grid_columns(pane_count);
    let columns = grid_columns(pane_count) as int;
    let total = pane_count + columns - 1;
    let rows = total / columns;
    assert(total == rows * columns + total % columns && 0 <= total % columns < columns)
        by (nonlinear_arith)
        requires
            columns >= 1,
            rows == total / columns,
    ;
    assert(rows >= 0 && rows <= columns) by (nonlinear_arith)
        requires
            total == rows * columns + total % columns,
            0 <= total % columns < columns,
            total == pane_count + columns - 1,
            columns * columns >= pane_count,
            columns >= 1,
    ;
    assert(rows * columns >= pane_count);
    assert((rows - 1) * columns == rows * columns - columns) by (nonlinear_arith);
    if pane_count == 0 {
        assert(rows == 0) by (nonlinear_arith)
            requires
                columns - 1 == rows * columns + total % columns,
                0 <= total % columns,
                rows >= 0,
                columns >= 1,
        ;
    } else {
        assert(rows >= 1) by (nonlinear_arith)
            requires
                rows * columns >= pane_count,
                pane_count > 0,
                columns >= 1,
                rows >= 0,
        ;
    }
}

/// The first cells of `cells` that still fit under `limit` regions.
pub open spec fn cells_to_take(held: nat, cells: nat, limit: nat) -> nat {
    if held >= limit {
        0
    } else if limit - held < cells {
        (limit - held) as nat
    } else {
        cells
    }
}

/// The column and the row of the same point lie within the rectangle. The
/// far edges are cut off at the last coordinate.
pub open spec fn region_contains(rect: PaneRegion, column: u16, row: u16) -> bool {
    &&& rect.x <= column
    &&& rect.y <= row
    &&& column < rect.x + rect.width
    &&& row < rect.y + rect.height
    &&& column < u16::MAX
    &&& row < u16::MAX
}

impl App {
    /// Number of columns and rows of the grid for `pane_count` panes.
    pub fn grid_size(pane_count: usize) -> (size: (usize, usize))
        ensures
            size.0 == grid_columns(pane_count as nat),
            size.1 == grid_rows(pane_count as nat),
    {
        let mut columns: usize = 1;
        while Self::square_is_less(columns, pane_count)
            invariant
                columns >= 1,
                columns == 1 || (columns - 1) * (columns - 1) < pane_count,
            decreases pane_count - columns,
        {
            assert(columns < pane_count) by (nonlinear_arith)
                requires
                    columns >= 1,
                    columns * columns < pane_count,
            ;
            columns = columns + 1;
        }
        proof {
            lemma_grid_columns_unique(pane_count as nat, columns as nat);
            lemma_grid_rows(pane_count as nat);
        }
        let whole = pane_count / columns;
        let left = pane_count % columns;
        assert(pane_count == whole * columns + left && 0 <= left < columns) by (nonlinear_arith)
            requires
                columns >= 1,
                whole == pane_count / columns,
                left == pane_count % columns,
        ;
        let rows = if left == 0 {
            whole
        } else {
            assert(whole < columns) by (nonlinear_arith)
                requires
                    pane_count == whole * columns + left,
                    columns * columns >= pane_count,
                    columns >= 1,
                    left > 0,
            ;
            whole + 1
        };
        assert(rows == grid_rows(pane_count as nat)) by (nonlinear_arith)
            requires
                pane_count == whole * columns + left,
                0 <= left < columns,
                rows == if left == 0 { whole as int } else { whole + 1 },
                grid_rows(pane_count as nat) * columns >= pane_count,
                pane_count > 0 ==> (grid_rows(pane_count as nat) - 1) * columns < pane_count,
                pane_count == 0 ==> grid_rows(pane_count as nat) == 0,
        ;
        (columns, rows)
    }

    /// Whether the square of `columns` is still less than `pane_count`.
    fn square_is_less(columns: usize, pane_count: usize) -> (less: bool)
        ensures
            less == (columns * columns < pane_count),
    {
        match columns.checked_mul(columns) {
            Some(square) => square < pane_count,
            None => false,
        }
    }

    /// Appends the cells of one band to `regions`, from the left, until
    /// `regions` holds `limit` regions.
    pub fn append_cells(regions: &mut Vec<PaneRegion>, cells: &Vec<PaneRegion>, limit: usize)
        ensures
            final(regions)@ == old(regions)@ + cells@.take(
                cells_to_take(old(regions)@.len(), cells@.len(), limit as nat) as int,
            ),
    {
        let ghost held = regions@;
        let mut index: usize = 0;
        while index < cells.len() && regions.len() < limit
            invariant
                index <= cells.len(),
                regions@ == held + cells@.take(index as int),
                index <= cells_to_take(held.len(), cells@.len(), limit as nat),
            decreases cells.len() - index,
        {
            regions.push(cells[index]);
            index = index + 1;
            assert(regions@ =~= held + cells@.take(index as int));
        }
    }

    /// Divides `area` among `pane_count` panes: into bands from the top, one
    /// per row of the grid, and each band into slices from the left, one per
    /// column. The regions come row by row; slices that the last band has
    /// beyond the number of panes are left out.
    ///
    /// Where the bands and slices begin and how large they are is the layout
    /// solver's answer; the regions are the slices it gave, each in the band
    /// of its row. So every region lies within the area, and the regions of
    /// one row begin at the same height and are equally high.
    pub fn compute_pane_regions(area: PaneRegion, pane_count: usize) -> (regions: Vec<PaneRegion>)
        ensures
            regions.len() == pane_count,
            laid_out(area, pane_count as nat, regions@),
            forall|i: int|
                0 <= i < regions.len() ==> region_within(area, #[trigger] regions[i]),
            forall|i: int, j: int|
                0 <= i < regions.len() && 0 <= j < regions.len() && i / (grid_columns(
                    pane_count as nat,
                ) as int) == j / (grid_columns(pane_count as nat) as int) ==> (
                #[trigger] regions[i]).y == (#[trigger] regions[j]).y && regions[i].height
                    == regions[j].height,
    {
        let mut regions: Vec<PaneRegion> = Vec::new();
        let (columns, rows) = Self::grid_size(pane_count);
        proof {
            lemma_grid_columns(pane_count as nat);
            lemma_grid_rows(pane_count as nat);
        }
        if pane_count == 0 {
            proof {
                let bands = Seq::<PaneRegion>::empty();
                let cells = Seq::<Seq<PaneRegion>>::empty();
                assert(grid_of(area, 0, bands, cells, regions@));
            }
            return regions;
        }
        let bands = split_area(area, Division::Bands, rows, 1, Self::ratio_part(rows));
        let ghost mut cells: Seq<Seq<PaneRegion>> = Seq::empty();
        let mut row: usize = 0;
        while row < rows
            invariant
                columns == grid_columns(pane_count as nat),
                rows == grid_rows(pane_count as nat),
                columns >= 1,
                rows >= 1,
                rows * columns >= pane_count,
                (rows - 1) * columns < pane_count,
                divides(area, Division::Bands, rows as nat, bands@),
                row <= rows,
                cells.len() == row,
                forall|r: int|
                    0 <= r < row ==> divides(
                        bands@[r],
                        Division::Slices,
                        columns as nat,
                        #[trigger] cells[r],
                    ),
                regions.len() == if row < rows {
                    row * columns
                } else {
                    pane_count as int
                },
                forall|i: int|
                    0 <= i < regions.len() ==> #[trigger] regions[i] == cells[i / (
                    columns as int)][i % (columns as int)],
            decreases rows - row,
        {
            let band = bands[row];
            let slices = split_area(band, Division::Slices, columns, 1, Self::ratio_part(columns));
            let ghost held = regions@;
            let ghost before = cells;
            Self::append_cells(&mut regions, &slices, pane_count);
            proof {
                cells = before.push(slices@);
                assert(row * columns <= (rows - 1) * columns) by (nonlinear_arith)
                    requires
                        row <= rows - 1,
                        columns >= 0,
                ;
                assert((row + 1) * columns == row * columns + columns) by (nonlinear_arith);
                if row + 1 < rows {
                    assert((row + 1) * columns <= (rows - 1) * columns) by (nonlinear_arith)
                        requires
                            row + 1 <= rows - 1,
                            columns >= 0,
                    ;
                } else {
                    assert(rows * columns == (rows - 1) * columns + columns) by (nonlinear_arith);
                }
                assert forall|i: int| 0 <= i < regions.len() implies #[trigger] regions[i]
                    == cells[i / (columns as int)][i % (columns as int)] by {
                    if i >= held.len() {
                        let offset = i - held.len();
                        assert(regions[i] == slices[offset]);
                        lemma_grid_place(columns as int, row as int, offset);
                    } else {
                        assert(regions[i] == held[i]);
                        vstd::arithmetic::div_mod::lemma_fundamental_div_mod(i, columns as int);
                        vstd::arithmetic::div_mod::lemma_mod_bound(i, columns as int);
                        vstd::arithmetic::div_mod::lemma_div_pos_is_pos(i, columns as int);
                        let r = i / (columns as int);
                        if r >= row {
                            assert((columns as int) * r >= (columns as int) * row)
                                by (nonlinear_arith)
                                requires
                                    r >= row,
                                    columns >= 1,
                            ;
                            assert((columns as int) * row == row * columns) by (nonlinear_arith);
                        }
                        assert(cells[r] == before[r]);
                    }
                }
            }
            row = row + 1;
        }
        proof {
            assert(grid_of(area, pane_count as nat, bands@, cells, regions@));
            assert forall|i: int| 0 <= i < regions.len() implies region_within(
                area,
                #[trigger] regions[i],
            ) by {
                lemma_laid_out(area, pane_count as nat, regions@, i, i);
            }
            assert forall|i: int, j: int|
                0 <= i < regions.len() && 0 <= j < regions.len() && i / (grid_columns(
                    pane_count as nat,
                ) as int) == j / (grid_columns(pane_count as nat) as int) implies (
            #[trigger] regions[i]).y == (#[trigger] regions[j]).y && regions[i].height
                == regions[j].height by {
                lemma_laid_out(area, pane_count as nat, regions@, i, j);
            }
        }
        regions
    }

    /// The denominator that stands for `parts` equal parts.
    fn ratio_part(parts: usize) -> (denominator: u32)
        ensures
            parts <= u32::MAX ==> denominator == parts,
            parts > u32::MAX ==> denominator == u32::MAX,
    {
        if parts > u32::MAX as usize {
            u32::MAX
        } else {
            parts as u32
        }
    }

    /// Whether the cell at `column`, `row` lies within `rect`.
    pub fn rect_contains(rect: PaneRegion, column: u16, row: u16) -> (inside: bool)
        ensures
            inside == region_contains(rect, column, row),
    {
        column >= rect.x && row >= rect.y && column < rect.x.saturating_add(rect.width) && row
            < rect.y.saturating_add(rect.height)
    }
}

} // verus!
