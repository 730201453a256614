//! Grid descriptions, cell bounds and the row-major enumeration of cells.
use vstd::prelude::*;

use crate::arith::{lemma_row_major, lemma_row_major_bound};

verus! {

/// Why a grid description was refused.
#[derive(Debug, Clone, Copy, PartialEq, Eq, Structural)]
pub enum SpecError {
    ZeroCellSize,
    ZeroColumns,
    ZeroRows,
}

/// The mathematical content of a grid description.
pub struct GridModel {
    pub origin_x: nat,
    pub origin_y: nat,
    pub cell_size: nat,
    pub columns: nat,
    pub rows: nat,
}

/// A grid of `columns` by `rows` square cells of side `cell_size`, whose top
/// left cell starts at pixel `(origin_x, origin_y)`.
#[derive(Debug, Clone, Copy, PartialEq, Eq, Structural)]
pub struct GridSpec {
    origin_x: u32,
    origin_y: u32,
    cell_size: u32,
    columns: u32,
    rows: u32,
}

/// Position of a cell in the grid, counted from zero.
#[derive(Debug, Clone, Copy, PartialEq, Eq, Structural)]
pub struct CellIndex {
    pub column: u32,
    pub row: u32,
}

/// Pixel rectangle covered by a cell.
#[derive(Debug, Clone, Copy, PartialEq, Eq, Structural)]
pub struct BoundingBox {
    pub x: u32,
    pub y: u32,
    pub width: u32,
    pub height: u32,
}

/// Which edge of the image a refused cell reaches.
#[derive(Debug, Clone, Copy, PartialEq, Eq, Structural)]
pub enum SkipReason {
    /// The cell's right edge is not strictly left of the image's width.
    PastRightEdge,
    /// The cell fits horizontally, but its bottom edge is not strictly above
    /// the image's height.
    PastBottomEdge,
}

/// Result of checking one cell against an image's size.
#[derive(Debug, Clone, Copy, PartialEq, Eq, Structural)]
pub enum CellCheck {
    Admitted(BoundingBox),
    Skipped(SkipReason),
}

/// One cell of the enumeration: where it is, the number that names its
/// output, and whether it fits.
#[derive(Debug, Clone, Copy, PartialEq, Eq, Structural)]
pub struct CellOutcome {
    pub index: CellIndex,
    pub ordinal: u64,
    pub check: CellCheck,
}

impl View for GridSpec {
    type V = GridModel;

    closed spec fn view(&self) -> GridModel {
        GridModel {
            origin_x: self.origin_x as nat,
            origin_y: self.origin_y as nat,
            cell_size: self.cell_size as nat,
            columns: self.columns as nat,
            rows: self.rows as nat,
        }
    }
}

/// A grid whose cell size, column count and row count are all positive, and
/// whose numbers fit in 32 bits.
pub open spec fn grid_valid(g: GridModel) -> bool {
    &&& 0 < g.cell_size <= u32::MAX
    &&& 0 < g.columns <= u32::MAX
    &&& 0 < g.rows <= u32::MAX
    &&& g.origin_x <= u32::MAX
    &&& g.origin_y <= u32::MAX
}

/// Left pixel column of the cells of column `column`.
pub open spec fn cell_left(g: GridModel, column: int) -> int {
    g.origin_x + column * g.cell_size
}

/// Top pixel row of the cells of row `row`.
pub open spec fn cell_top(g: GridModel, row: int) -> int {
    g.origin_y + row * g.cell_size
}

/// A cell is admitted when its right and bottom edges lie strictly inside
/// the image.
pub open spec fn cell_admitted(g: GridModel, column: int, row: int, width: int, height: int) -> bool {
    cell_left(g, column) + g.cell_size < width && cell_top(g, row) + g.cell_size < height
}

/// The number that names a cell's output: its place in row-major order.
pub open spec fn cell_ordinal(g: GridModel, column: int, row: int) -> int {
    row * g.columns + column
}

/// What checking cell `(column, row)` against a `width` by `height` image
/// gives.
pub open spec fn expected_check(
    g: GridModel,
    column: int,
    row: int,
    width: int,
    height: int,
) -> CellCheck {
    if cell_admitted(g, column, row, width, height) {
        CellCheck::Admitted(
            BoundingBox {
                x: cell_left(g, column) as u32,
                y: cell_top(g, row) as u32,
                width: g.cell_size as u32,
                height: g.cell_size as u32,
            },
        )
    } else if cell_left(g, column) + g.cell_size >= width {
        CellCheck::Skipped(SkipReason::PastRightEdge)
    } else {
        CellCheck::Skipped(SkipReason::PastBottomEdge)
    }
}

/// The `k`-th cell of the row-major enumeration of the grid.
pub open spec fn expected_outcome(g: GridModel, k: int, width: int, height: int) -> CellOutcome {
    CellOutcome {
        index: CellIndex { column: (k % g.columns as int) as u32, row: (k / g.columns as int) as u32 },
        ordinal: k as u64,
        check: expected_check(g, k % g.columns as int, k / g.columns as int, width, height),
    }
}

/// `r` is the row-major enumeration of the cells of `g` checked against a
/// `width` by `height` image.
pub open spec fn is_plan_of(r: Seq<CellOutcome>, g: GridModel, width: int, height: int) -> bool {
    &&& r.len() == g.columns * g.rows
    &&& forall|k: int| 0 <= k < r.len() ==> #[trigger] r[k] == expected_outcome(g, k, width, height)
}

/// The plan of a grid on an image is determined by the grid and the image's
/// size: two plans made from the same inputs are identical, whatever order
/// their cells were worked on in.
pub proof fn lemma_plan_unique(a: Seq<CellOutcome>, b: Seq<CellOutcome>, g: GridModel, width: int, height: int)
    requires
        is_plan_of(a, g, width, height),
        is_plan_of(b, g, width, height),
    ensures
        a == b,
{
    assert(a =~= b);
}

/// On an image wider than the grid's right edge and taller than its bottom
/// edge, every cell of the row-major enumeration is admitted; the ordinals
/// given out are exactly `0 .. columns * rows`, the `k`-th entry carrying
/// ordinal `k`; and each cell of the grid receives exactly one of them, the
/// entry at its ordinal being that cell.
pub proof fn lemma_large_image_admits_every_cell(g: GridModel, width: int, height: int)
    requires
        grid_valid(g),
        width > g.origin_x + g.columns * g.cell_size,
        height > g.origin_y + g.rows * g.cell_size,
    ensures
        forall|k: int|
            0 <= k < g.columns * g.rows ==> {
                &&& (#[trigger] expected_outcome(g, k, width, height)).check is Admitted
                &&& expected_outcome(g, k, width, height).ordinal == k
            },
        forall|column: int, row: int|
            0 <= column < g.columns && 0 <= row < g.rows ==> {
                &&& 0 <= #[trigger] cell_ordinal(g, column, row) < g.columns * g.rows
                &&& expected_outcome(g, cell_ordinal(g, column, row), width, height).index == (CellIndex {
                    column: column as u32,
                    row: row as u32,
                })
            },
{
    let c = g.columns as int;
    let r = g.rows as int;
    let s = g.cell_size as int;
    assert(c * r <= 0xffff_ffff * 0xffff_ffff) by (nonlinear_arith)
        requires
            0 < c <= 0xffff_ffff,
            0 < r <= 0xffff_ffff,
    ;
    assert forall|k: int| 0 <= k < c * r implies {
        &&& (#[trigger] expected_outcome(g, k, width, height)).check is Admitted
        &&& expected_outcome(g, k, width, height).ordinal == k
    } by {
        let col = k % c;
        let row = k / c;
        vstd::arithmetic::div_mod::lemma_fundamental_div_mod(k, c);
        assert(0 <= col < c);
        assert(0 <= row < r) by (nonlinear_arith)
            requires
                k == c * row + col,
                0 <= col < c,
                0 <= k < c * r,
        ;
        assert(col * s + s <= c * s) by (nonlinear_arith)
            requires
                col + 1 <= c,
                0 < s,
        ;
        assert(row * s + s <= r * s) by (nonlinear_arith)
            requires
                row + 1 <= r,
                0 < s,
        ;
    }
    assert forall|column: int, row: int| 0 <= column < c && 0 <= row < r implies {
        &&& 0 <= #[trigger] cell_ordinal(g, column, row) < c * r
        &&& expected_outcome(g, cell_ordinal(g, column, row), width, height).index == (CellIndex {
            column: column as u32,
            row: row as u32,
        })
    } by {
        lemma_row_major(row * c + column, row, column, c);
        lemma_row_major_bound(row, column, c, r);
        assert(r * c == c * r) by (nonlinear_arith);
    }
}

impl GridSpec {
    #[verifier::type_invariant]
    spec fn inv(&self) -> bool {
        grid_valid(self@)
    }

    /// Builds a grid description, refusing a zero cell size, column count or
    /// row count.
    pub fn new(origin_x: u32, origin_y: u32, cell_size: u32, columns: u32, rows: u32) -> (r: Result<
        GridSpec,
        SpecError,
    >)
        ensures
            cell_size == 0 ==> r == Err::<GridSpec, SpecError>(SpecError::ZeroCellSize),
            cell_size > 0 && columns == 0 ==> r == Err::<GridSpec, SpecError>(SpecError::ZeroColumns),
            cell_size > 0 && columns > 0 && rows == 0 ==> r == Err::<GridSpec, SpecError>(
                SpecError::ZeroRows,
            ),
            cell_size > 0 && columns > 0 && rows > 0 ==> r is Ok,
            r matches Ok(g) ==> g@ == (GridModel {
                origin_x: origin_x as nat,
                origin_y: origin_y as nat,
                cell_size: cell_size as nat,
                columns: columns as nat,
                rows: rows as nat,
            }),
    {
        if cell_size == 0 {
            Err(SpecError::ZeroCellSize)
        } else if columns == 0 {
            Err(SpecError::ZeroColumns)
        } else if rows == 0 {
            Err(SpecError::ZeroRows)
        } else {
            Ok(GridSpec { origin_x, origin_y, cell_size, columns, rows })
        }
    }

    pub fn origin_x(&self) -> (r: u32)
        ensures
            r == self@.origin_x,
    {
        self.origin_x
    }

    pub fn origin_y(&self) -> (r: u32)
        ensures
            r == self@.origin_y,
    {
        self.origin_y
    }

    pub fn cell_size(&self) -> (r: u32)
        ensures
            r == self@.cell_size,
    {
        self.cell_size
    }

    pub fn columns(&self) -> (r: u32)
        ensures
            r == self@.columns,
    {
        self.columns
    }

    pub fn rows(&self) -> (r: u32)
        ensures
            r == self@.rows,
    {
        self.rows
    }

    /// Decides whether the cell at `index` fits strictly inside a `width` by
    /// `height` image, and if so gives its pixel rectangle.
    pub fn check_cell(&self, index: CellIndex, width: u32, height: u32) -> (r: CellCheck)
        ensures
            r == expected_check(self@, index.column as int, index.row as int, width as int, height as int),
            r is Admitted <==> cell_admitted(self@, index.column as int, index.row as int, width as int, height as int),
    {
        let size = self.cell_size as u64;
        assert((index.column as u64) * size <= 0xffff_fffe_0000_0001u64) by (nonlinear_arith)
            requires
                index.column <= 0xffff_ffffu32,
                size <= 0xffff_ffffu64,
        ;
        assert((index.row as u64) * size <= 0xffff_fffe_0000_0001u64) by (nonlinear_arith)
            requires
                index.row <= 0xffff_ffffu32,
                size <= 0xffff_ffffu64,
        ;
        let x: u64 = self.origin_x as u64 + index.column as u64 * size;
        let y: u64 = self.origin_y as u64 + index.row as u64 * size;
        if x + size < width as u64 && y + size < height as u64 {
            CellCheck::Admitted(
                BoundingBox { x: x as u32, y: y as u32, width: self.cell_size, height: self.cell_size },
            )
        } else if x + size >= width as u64 {
            CellCheck::Skipped(SkipReason::PastRightEdge)
        } else {
            CellCheck::Skipped(SkipReason::PastBottomEdge)
        }
    }

    /// Checks every cell of the grid against a `width` by `height` image, in
    /// row-major order: the `k`-th entry is the cell of ordinal `k`.
    pub fn plan_cells(&self, width: u32, height: u32) -> (r: Vec<CellOutcome>)
        requires
            self@.columns * self@.rows <= usize::MAX,
        ensures
            is_plan_of(r@, self@, width as int, height as int),
    {
        proof {
            use_type_invariant(self);
        }
        let ghost g = self@;
        let mut out: Vec<CellOutcome> = Vec::new();
        let mut row: u32 = 0;
        while row < self.rows
            invariant
                g == self@,
                grid_valid(g),
                g.columns * g.rows <= usize::MAX,
                row <= g.rows,
                out@.len() == row * g.columns,
                forall|k: int|
                    0 <= k < out@.len() ==> #[trigger] out@[k] == expected_outcome(g, k, width as int, height as int),
            decreases g.rows - row,
        {
            let mut column: u32 = 0;
            while column < self.columns
                invariant
                    g == self@,
                    grid_valid(g),
                    g.columns * g.rows <= usize::MAX,
                    row < g.rows,
                    column <= g.columns,
                    out@.len() == row * g.columns + column,
                    forall|k: int|
                        0 <= k < out@.len() ==> #[trigger] out@[k] == expected_outcome(g, k, width as int, height as int),
                decreases g.columns - column,
            {
                let k: usize = out.len();
                proof {
                    lemma_row_major(k as int, row as int, column as int, g.columns as int);
                    lemma_row_major_bound(row as int, column as int, g.columns as int, g.rows as int);
                    assert(g.rows * g.columns == g.columns * g.rows) by (nonlinear_arith);
                }
                let index = CellIndex { column, row };
                let check = self.check_cell(index, width, height);
                out.push(CellOutcome { index, ordinal: k as u64, check });
                column = column + 1;
            }
            proof {
                assert((row + 1) * g.columns == row * g.columns + g.columns) by (nonlinear_arith);
            }
            row = row + 1;
        }
        proof {
            assert(g.rows * g.columns == g.columns * g.rows) by (nonlinear_arith);
        }
        out
    }
}

} // verus!
