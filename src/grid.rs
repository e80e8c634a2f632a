//! The mathematical model of a canvas: a sequence of rows, each a sequence
//! of characters, together with what each drawing operation does to it and
//! how it is rendered as text.

use vstd::arithmetic::div_mod::lemma_fundamental_div_mod_converse;
use vstd::arithmetic::mul::lemma_mul_is_distributive_add_other_way;
use vstd::prelude::*;

verus! {

/// A grid of `height` rows, each of `width` blank cells.
pub open spec fn blank_grid(height: nat, width: nat) -> Seq<Seq<char>> {
    Seq::new(height, |i: int| Seq::new(width, |j: int| ' '))
}

/// Every row of `grid` holds exactly `width` cells.
pub open spec fn is_rectangular(grid: Seq<Seq<char>>, width: nat) -> bool {
    forall|i: int| 0 <= i < grid.len() ==> (#[trigger] grid[i]).len() == width
}

/// The `len` by `len` square whose top left corner is `pos` lies within a
/// canvas of `height` rows and `width` columns.
pub open spec fn square_fits(height: nat, width: nat, pos: (usize, usize), len: usize) -> bool {
    pos.0 + len <= height && pos.1 + len <= width
}

/// A run of `len` cells along row `pos.0` from column `pos.1` lies within a
/// canvas of `height` rows and `width` columns.
pub open spec fn horizontal_fits(height: nat, width: nat, pos: (usize, usize), len: usize) -> bool {
    pos.0 < height && pos.1 + len <= width
}

/// A run of `len` cells down column `pos.1` from row `pos.0` lies within a
/// canvas of `height` rows and `width` columns.
pub open spec fn vertical_fits(height: nat, width: nat, pos: (usize, usize), len: usize) -> bool {
    pos.0 + len <= height && pos.1 < width
}

/// What a run of `len` cells starting at index `from` leaves at index `k`,
/// where `prior` was held before. The start, the middle cells and the end
/// are written in that order, so the end wins where it meets the start
/// (a run of one cell).
pub open spec fn run_cell(start: char, middle: char, end: char, from: int, len: int, k: int, prior: char) -> char {
    if k == from + len - 1 {
        end
    } else if k == from {
        start
    } else if from < k < from + len - 1 {
        middle
    } else {
        prior
    }
}

/// `grid` after a run of `len` cells drawn along row `row` from column `col`.
pub open spec fn with_horizontal_run(
    grid: Seq<Seq<char>>,
    start: char,
    middle: char,
    end: char,
    row: int,
    col: int,
    len: int,
) -> Seq<Seq<char>> {
    grid.update(
        row,
        Seq::new(grid[row].len(), |j: int| run_cell(start, middle, end, col, len, j, grid[row][j])),
    )
}

/// `grid` after a run of `len` cells drawn down column `col` from row `row`.
pub open spec fn with_vertical_run(
    grid: Seq<Seq<char>>,
    start: char,
    middle: char,
    end: char,
    row: int,
    col: int,
    len: int,
) -> Seq<Seq<char>> {
    Seq::new(
        grid.len(),
        |i: int|
            if row <= i < row + len {
                grid[i].update(col, run_cell(start, middle, end, row, len, i, grid[i][col]))
            } else {
                grid[i]
            },
    )
}

/// What the border of the `len` by `len` square whose top left corner is
/// `(top, left)` leaves at cell `(i, j)`, where `prior` was held before:
/// `'+'` at the corners, `'-'` between them on the top and bottom edges,
/// `'|'` between them on the left and right edges.
pub open spec fn border_cell(top: int, left: int, len: int, i: int, j: int, prior: char) -> char {
    let bottom = top + len - 1;
    let right = left + len - 1;
    let on_edge_row = i == top || i == bottom;
    let on_edge_col = j == left || j == right;
    if on_edge_row && on_edge_col {
        '+'
    } else if on_edge_row && left < j < right {
        '-'
    } else if on_edge_col && top < i < bottom {
        '|'
    } else {
        prior
    }
}

/// `grid` after the border of the `len` by `len` square at `(top, left)` is drawn.
pub open spec fn with_square(grid: Seq<Seq<char>>, top: int, left: int, len: int) -> Seq<Seq<char>> {
    Seq::new(
        grid.len(),
        |i: int| Seq::new(grid[i].len(), |j: int| border_cell(top, left, len, i, j, grid[i][j])),
    )
}

/// The border of a square is its top edge, left edge, bottom edge and right
/// edge drawn as runs in that order.
pub proof fn lemma_square_as_runs(grid: Seq<Seq<char>>, width: nat, top: int, left: int, len: int)
    requires
        is_rectangular(grid, width),
        len >= 2,
        0 <= top,
        top + len <= grid.len(),
        0 <= left,
        left + len <= width,
    ensures
        with_vertical_run(
            with_horizontal_run(
                with_vertical_run(
                    with_horizontal_run(grid, '+', '-', '+', top, left, len),
                    '+',
                    '|',
                    '+',
                    top,
                    left,
                    len,
                ),
                '+',
                '-',
                '+',
                top + len - 1,
                left,
                len,
            ),
            '+',
            '|',
            '+',
            top,
            left + len - 1,
            len,
        ) == with_square(grid, top, left, len),
{
    let g1 = with_horizontal_run(grid, '+', '-', '+', top, left, len);
    let g2 = with_vertical_run(g1, '+', '|', '+', top, left, len);
    let g3 = with_horizontal_run(g2, '+', '-', '+', top + len - 1, left, len);
    let g4 = with_vertical_run(g3, '+', '|', '+', top, left + len - 1, len);
    let sq = with_square(grid, top, left, len);
    assert(is_rectangular(g1, width));
    assert(is_rectangular(g2, width));
    assert(is_rectangular(g3, width));
    assert forall|i: int| 0 <= i < grid.len() implies g4[i] =~= sq[i] by {
        assert(grid[i].len() == width);
    }
    assert(g4 =~= sq);
}

/// The text of `grid`: each row's cells left to right followed by a line
/// break, rows top to bottom.
pub open spec fn render(grid: Seq<Seq<char>>) -> Seq<char>
    decreases grid.len(),
{
    if grid.len() == 0 {
        Seq::empty()
    } else {
        render(grid.drop_last()) + grid.last() + seq!['\n']
    }
}

/// The text of a canvas of `height` rows and `width` columns in which
/// nothing has been drawn: `height` lines, each `width` blanks followed by a
/// line break.
pub proof fn lemma_blank_render(height: nat, width: nat)
    ensures
        render(blank_grid(height, width)) == Seq::new(
            height * (width + 1),
            |k: int| if k % (width + 1) as int == width as int { '\n' } else { ' ' },
        ),
    decreases height,
{
    let line = (width + 1) as int;
    let text = Seq::new(
        height * (width + 1),
        |k: int| if k % (width + 1) as int == width as int { '\n' } else { ' ' },
    );
    if height == 0 {
        assert(height * (width + 1) == 0) by (nonlinear_arith)
            requires
                height == 0,
        ;
        assert(text =~= Seq::empty());
    } else {
        let h = (height - 1) as nat;
        let g = blank_grid(height, width);
        assert(g.drop_last() =~= blank_grid(h, width));
        lemma_blank_render(h, width);
        let prev = Seq::new(h * (width + 1), |k: int| if k % (width + 1) as int == width as int { '\n' } else { ' ' });
        lemma_mul_is_distributive_add_other_way(line, h as int, 1);
        assert(height * line == h * line + line);
        let whole = prev + g.last() + seq!['\n'];
        assert forall|k: int| 0 <= k < height * line implies whole[k] == text[k] by {
            if k >= h * line {
                lemma_fundamental_div_mod_converse(k, line, h as int, k - h * line);
            }
        }
        assert(whole =~= text);
    }
}

} // verus!
