//! The layout of the cells: rows of hexagon centres, each row doubled by a
//! second one shifted half a step, so that the cells tile like bricks.

use vstd::prelude::*;
use vstd::arithmetic::div_mod::{
    lemma_div_is_ordered,
    lemma_div_pos_is_pos,
    lemma_fundamental_div_mod,
    lemma_fundamental_div_mod_converse,
    lemma_mod_bound,
};
use crate::geometry::{Point, COORD_MAX};
use crate::units::{ONE, SIN_60};

verus! {

/// The distance between two rows: `2 * radius * sin(60 degrees)`, rounded
/// down.
pub open spec fn cell_height_spec(radius: int) -> int {
    2 * radius * SIN_60 / (ONE as int)
}

/// The number of rows, or of columns, laid over `extent`: as many steps of
/// `2 * radius` as it takes to cover it, and two more to reach past the
/// edge.
pub open spec fn grid_count_spec(extent: int, radius: int) -> int {
    (extent + 2 * radius - 1) / (2 * radius) + 2
}

/// The number of centres of a grid: two for each place of each row.
pub open spec fn grid_len_spec(radius: int, width: int, height: int) -> int {
    2 * (grid_count_spec(height, radius) * grid_count_spec(width, radius))
}

/// The centre at `row` and `col`: columns are `3 * radius` apart, rows one
/// cell height; the second centre of a place is shifted by one and a half
/// radii across and half a cell height down.
pub open spec fn grid_point_spec(radius: int, row: int, col: int, shifted: bool) -> Point {
    Point {
        x: (col * (3 * radius) + if shifted {
            3 * radius / 2
        } else {
            0
        }) as i64,
        y: (row * cell_height_spec(radius) + if shifted {
            cell_height_spec(radius) / 2
        } else {
            0
        }) as i64,
    }
}

/// The centre that stands at index `k` of the grid: row by row, place by
/// place, the unshifted centre of a place before the shifted one.
pub open spec fn grid_entry_spec(radius: int, width: int, k: int) -> Point {
    let cols = grid_count_spec(width, radius);
    grid_point_spec(radius, (k / 2) / cols, (k / 2) % cols, k % 2 == 1)
}

/// All the centres of the grid over a viewport, in order.
pub open spec fn create_hexgrid_spec(radius: int, width: int, height: int) -> Seq<Point> {
    Seq::new(
        grid_len_spec(radius, width, height) as nat,
        |k: int| grid_entry_spec(radius, width, k),
    )
}

/// A count is at least two, and the steps before the last one overshoot
/// the extent by less than two steps.
pub proof fn lemma_grid_count(extent: int, radius: int)
    requires
        radius > 0,
        extent >= 0,
    ensures
        grid_count_spec(extent, radius) >= 2,
        extent <= (grid_count_spec(extent, radius) - 2) * (2 * radius) < extent + 2 * radius,
{
    let d = 2 * radius;
    let n = extent + d - 1;
    lemma_fundamental_div_mod(n, d);
    lemma_mod_bound(n, d);
    lemma_div_pos_is_pos(n, d);
    assert((n / d) * d == d * (n / d)) by (nonlinear_arith);
}

/// A cell height is positive and at most two radii.
pub proof fn lemma_cell_height(radius: int)
    requires
        radius > 0,
    ensures
        0 < cell_height_spec(radius) <= 2 * radius,
{
    let n = 2 * radius * SIN_60;
    let one = ONE as int;
    assert(n == radius * 1_732_050);
    lemma_fundamental_div_mod(n, one);
    lemma_mod_bound(n, one);
}

/// Every centre of the grid lies at or right of and below the origin: no
/// further right than one and a half times the width and nine radii, and no
/// further down than the height and six radii.
pub proof fn lemma_grid_point_bounds(radius: int, width: int, height: int, row: int, col: int, shifted: bool)
    requires
        radius > 0,
        width >= 0,
        height >= 0,
        0 <= row < grid_count_spec(height, radius),
        0 <= col < grid_count_spec(width, radius),
    ensures
        0 <= col * (3 * radius) <= col * (3 * radius) + 3 * radius / 2,
        2 * (col * (3 * radius) + 3 * radius / 2) <= 3 * width + 18 * radius,
        0 <= row * cell_height_spec(radius) <= row * cell_height_spec(radius) + cell_height_spec(
            radius,
        ) / 2,
        row * cell_height_spec(radius) + cell_height_spec(radius) / 2 <= height + 6 * radius,
{
    lemma_grid_count(width, radius);
    lemma_grid_count(height, radius);
    lemma_cell_height(radius);
    let h = cell_height_spec(radius);
    let cols = grid_count_spec(width, radius);
    let rows = grid_count_spec(height, radius);
    assert(0 <= col * (2 * radius) <= (cols - 2) * (2 * radius) + 2 * radius) by (nonlinear_arith)
        requires
            0 <= col <= cols - 1,
            radius > 0,
    ;
    assert(2 * (col * (3 * radius)) == 3 * (col * (2 * radius))) by (nonlinear_arith);
    assert(0 <= row * h <= row * (2 * radius)) by (nonlinear_arith)
        requires
            0 <= row,
            0 <= h <= 2 * radius,
    ;
    assert(row * (2 * radius) <= (rows - 2) * (2 * radius) + 2 * radius) by (nonlinear_arith)
        requires
            0 <= row <= rows - 1,
            radius > 0,
    ;
}

/// The distance between two rows for cells of `radius`.
pub fn cell_height(radius: u32) -> (h: u64)
    ensures
        h == cell_height_spec(radius as int),
        h <= 2 * radius,
{
    proof {
        if radius > 0 {
            lemma_cell_height(radius as int);
        }
    }
    2 * (radius as u64) * (SIN_60 as u64) / (ONE as u64)
}

/// The number of rows, or of columns, that cover `extent`.
pub fn grid_count(extent: u32, radius: u32) -> (n: u32)
    requires
        radius > 0,
    ensures
        n == grid_count_spec(extent as int, radius as int),
        n >= 2,
{
    let step: u64 = 2 * (radius as u64);
    proof {
        lemma_grid_count(extent as int, radius as int);
        let c = grid_count_spec(extent as int, radius as int) - 2;
        assert(c <= 0x8000_0000) by (nonlinear_arith)
            requires
                c * (2 * radius) < extent + 2 * radius,
                radius >= 1,
                extent <= 0xffff_ffff,
        ;
    }
    ((extent as u64 + step - 1) / step + 2) as u32
}

/// The number of centres of the grid over a viewport.
pub fn grid_len(radius: u32, width: u32, height: u32) -> (n: u64)
    requires
        radius > 0,
    ensures
        n == grid_len_spec(radius as int, width as int, height as int),
        n >= 8,
{
    let cols: u64 = grid_count(width, radius) as u64;
    let rows: u64 = grid_count(height, radius) as u64;
    proof {
        lemma_grid_count(width as int, radius as int);
        lemma_grid_count(height as int, radius as int);
        assert(cols <= 0x8000_0002 && rows <= 0x8000_0002) by (nonlinear_arith)
            requires
                (cols - 2) * (2 * radius) < width + 2 * radius,
                (rows - 2) * (2 * radius) < height + 2 * radius,
                radius >= 1,
                width <= 0xffff_ffff,
                height <= 0xffff_ffff,
        ;
        assert(4 <= rows * cols <= 0x8000_0002 * 0x8000_0002) by (nonlinear_arith)
            requires
                2 <= rows <= 0x8000_0002,
                2 <= cols <= 0x8000_0002,
        ;
    }
    2 * (rows * cols)
}

/// Lays the grid over a viewport: the centres of all cells, row by row.
///
/// The rows and columns are counted with [`grid_count`]; every place of a
/// row yields two centres, the second shifted half a step across and half a
/// row down. The count must fit the machine's index.
pub fn create_hexgrid(hex_radius: u32, width: u32, height: u32) -> (hexagons: Vec<Point>)
    requires
        hex_radius > 0,
        grid_len_spec(hex_radius as int, width as int, height as int) <= usize::MAX,
    ensures
        hexagons@ == create_hexgrid_spec(hex_radius as int, width as int, height as int),
        hexagons@.len() >= 8,
        forall|k: int|
            0 <= k < hexagons@.len() ==> {
                &&& (#[trigger] hexagons@[k]).in_range()
                &&& hexagons@[k].x >= 0
                &&& hexagons@[k].y >= 0
            },
{
    let hex_height: u64 = cell_height(hex_radius);
    let num_cols: u32 = grid_count(width, hex_radius);
    let num_rows: u32 = grid_count(height, hex_radius);
    let step: u64 = 3 * (hex_radius as u64);
    let ghost r = hex_radius as int;
    let ghost w = width as int;
    let ghost total = grid_len_spec(r, w, height as int);
    proof {
        assert(total >= 8) by (nonlinear_arith)
            requires
                total == 2 * (num_rows * num_cols),
                num_rows >= 2,
                num_cols >= 2,
        ;
    }
    let mut hexagons: Vec<Point> = Vec::new();
    let mut row: u32 = 0;
    while row < num_rows
        invariant
            row <= num_rows,
            r == hex_radius,
            r > 0,
            w == width,
            step == 3 * r,
            hex_height == cell_height_spec(r),
            num_cols == grid_count_spec(w, r),
            num_rows == grid_count_spec(height as int, r),
            total == 2 * (num_rows * num_cols),
            total <= usize::MAX,
            hexagons@.len() == 2 * (row * num_cols),
            forall|k: int|
                0 <= k < hexagons@.len() ==> {
                    &&& #[trigger] hexagons@[k] == grid_entry_spec(r, w, k)
                    &&& hexagons@[k].in_range()
                    &&& hexagons@[k].x >= 0
                    &&& hexagons@[k].y >= 0
                },
        decreases num_rows - row,
    {
        let mut col: u32 = 0;
        while col < num_cols
            invariant
                col <= num_cols,
                row < num_rows,
                r == hex_radius,
                r > 0,
                w == width,
                step == 3 * r,
                hex_height == cell_height_spec(r),
                num_cols == grid_count_spec(w, r),
                num_rows == grid_count_spec(height as int, r),
                total == 2 * (num_rows * num_cols),
                total <= usize::MAX,
                hexagons@.len() == 2 * (row * num_cols + col),
                forall|k: int|
                    0 <= k < hexagons@.len() ==> {
                        &&& #[trigger] hexagons@[k] == grid_entry_spec(r, w, k)
                        &&& hexagons@[k].in_range()
                        &&& hexagons@[k].x >= 0
                        &&& hexagons@[k].y >= 0
                    },
            decreases num_cols - col,
        {
            let ghost place = row * num_cols + col;
            proof {
                lemma_grid_point_bounds(r, w, height as int, row as int, col as int, true);
                lemma_fundamental_div_mod_converse(place, num_cols as int, row as int, col as int);
                assert(row * num_cols + col < num_rows * num_cols) by (nonlinear_arith)
                    requires
                        0 <= row < num_rows,
                        0 <= col < num_cols,
                ;
                assert((2 * place) / 2 == place && (2 * place) % 2 == 0);
                assert((2 * place + 1) / 2 == place && (2 * place + 1) % 2 == 1);
            }
            let x: u64 = (col as u64) * step;
            let y: u64 = (row as u64) * hex_height;
            hexagons.push(Point { x: x as i64, y: y as i64 });
            let x2: u64 = x + step / 2;
            let y2: u64 = y + hex_height / 2;
            hexagons.push(Point { x: x2 as i64, y: y2 as i64 });
            proof {
                assert(hexagons@[2 * place] == grid_entry_spec(r, w, 2 * place));
                assert(hexagons@[2 * place + 1] == grid_entry_spec(r, w, 2 * place + 1));
            }
            col += 1;
        }
        proof {
            assert(2 * (row * num_cols + num_cols) == 2 * ((row + 1) * num_cols))
                by (nonlinear_arith);
        }
        row += 1;
    }
    assert(hexagons@ =~= create_hexgrid_spec(r, w, height as int));
    hexagons
}

/// The grid starts at the origin and its last column lies at or beyond the
/// right edge of the viewport.
pub proof fn lemma_grid_spans_width(radius: int, width: int)
    requires
        radius > 0,
        width >= 0,
    ensures
        grid_point_spec(radius, 0, 0, false) == (Point { x: 0, y: 0 }),
        width <= (grid_count_spec(width, radius) - 1) * (3 * radius),
{
    lemma_grid_count(width, radius);
    let cols = grid_count_spec(width, radius);
    assert((cols - 1) * (3 * radius) >= (cols - 2) * (2 * radius)) by (nonlinear_arith)
        requires
            cols >= 2,
            radius > 0,
    ;
    assert(0 * (3 * radius) == 0);
    assert(0 * cell_height_spec(radius) == 0);
}

/// No two places of a grid share a centre: centres at different rows,
/// columns or shifts differ.
pub proof fn lemma_grid_points_distinct(
    radius: int,
    width: int,
    height: int,
    row1: int,
    col1: int,
    shifted1: bool,
    row2: int,
    col2: int,
    shifted2: bool,
)
    requires
        0 < radius <= u32::MAX,
        0 <= width <= u32::MAX,
        0 <= height <= u32::MAX,
        0 <= row1 < grid_count_spec(height, radius),
        0 <= col1 < grid_count_spec(width, radius),
        0 <= row2 < grid_count_spec(height, radius),
        0 <= col2 < grid_count_spec(width, radius),
        (row1, col1, shifted1) != (row2, col2, shifted2),
    ensures
        grid_point_spec(radius, row1, col1, shifted1) != grid_point_spec(
            radius,
            row2,
            col2,
            shifted2,
        ),
{
    lemma_cell_height(radius);
    lemma_grid_point_bounds(radius, width, height, row1, col1, shifted1);
    lemma_grid_point_bounds(radius, width, height, row2, col2, shifted2);
    let h = cell_height_spec(radius);
    let step = 3 * radius;
    let x1 = col1 * step + if shifted1 { step / 2 } else { 0 };
    let x2 = col2 * step + if shifted2 { step / 2 } else { 0 };
    let y1 = row1 * h + if shifted1 { h / 2 } else { 0 };
    let y2 = row2 * h + if shifted2 { h / 2 } else { 0 };
    if col1 != col2 {
        assert(x1 != x2) by (nonlinear_arith)
            requires
                col1 != col2,
                step > 0,
                0 <= x1 - col1 * step < step,
                0 <= x2 - col2 * step < step,
        ;
    } else if shifted1 != shifted2 {
        assert(x1 != x2);
    } else {
        assert(y1 != y2) by (nonlinear_arith)
            requires
                row1 != row2,
                h > 0,
                y1 - row1 * h == y2 - row2 * h,
        ;
    }
}

} // verus!
