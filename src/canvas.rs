//! The canvas itself: its storage, drawing operations and rendering.

use vstd::prelude::*;

use crate::grid::{
    blank_grid, horizontal_fits, is_rectangular, lemma_square_as_runs, render, square_fits,
    vertical_fits, with_horizontal_run, with_square, with_vertical_run,
};
use crate::text::push_char;

verus! {

/// Why a drawing request was refused. A refused request leaves the canvas
/// as it was.
#[derive(Debug, Clone, Copy, PartialEq, Eq, Structural)]
pub enum DrawError {
    /// The run is empty, or the square too small to have four distinct corners.
    InvalidLength,
    /// Some cell of the requested shape lies outside the canvas.
    OutOfBounds,
}

/// A grid of characters, `height` rows by `width` columns, fixed at construction.
pub struct Canvas {
    canvas: Vec<Vec<char>>,
    width: usize,
}

/// The cells held by a sequence of row buffers.
spec fn rows_of(rows: Seq<Vec<char>>) -> Seq<Seq<char>> {
    Seq::new(rows.len(), |i: int| rows[i]@)
}

impl View for Canvas {
    type V = Seq<Seq<char>>;

    /// The rows of the canvas, top to bottom, each its cells left to right.
    closed spec fn view(&self) -> Seq<Seq<char>> {
        rows_of(self.canvas@)
    }
}

impl Canvas {
    /// The number of columns, fixed at construction.
    pub closed spec fn cols(&self) -> nat {
        self.width as nat
    }

    /// Well-formedness: every row holds exactly `cols()` cells.
    pub closed spec fn wf(&self) -> bool {
        is_rectangular(self@, self.cols())
    }

    /// A canvas of `line_num` rows and `line_len` columns, every cell blank.
    pub fn new(line_num: usize, line_len: usize) -> (r: Canvas)
        ensures
            r.wf(),
            r.cols() == line_len,
            r@ == blank_grid(line_num as nat, line_len as nat),
    {
        let mut canvas: Vec<Vec<char>> = Vec::new();
        let mut i: usize = 0;
        while i < line_num
            invariant
                i <= line_num,
                rows_of(canvas@) == blank_grid(i as nat, line_len as nat),
            decreases line_num - i,
        {
            let mut row: Vec<char> = Vec::new();
            let mut j: usize = 0;
            while j < line_len
                invariant
                    j <= line_len,
                    row@ == Seq::new(j as nat, |k: int| ' '),
                decreases line_len - j,
            {
                row.push(' ');
                j = j + 1;
                assert(row@ =~= Seq::new(j as nat, |k: int| ' '));
            }
            assert(row@ =~= Seq::new(line_len as nat, |k: int| ' '));
            let ghost before = canvas@;
            assert(rows_of(before).len() == before.len());
            assert(blank_grid(i as nat, line_len as nat).len() == i);
            canvas.push(row);
            i = i + 1;
            assert forall|k: int| 0 <= k < i implies rows_of(canvas@)[k] =~= blank_grid(
                i as nat,
                line_len as nat,
            )[k] by {
                if k < i - 1 {
                    assert(rows_of(before)[k] == blank_grid((i - 1) as nat, line_len as nat)[k]);
                }
            }
            assert(rows_of(canvas@) =~= blank_grid(i as nat, line_len as nat));
        }
        Canvas { canvas, width: line_len }
    }

    /// Writes the run along row `row` from column `col`: start, middle
    /// cells left to right, end.
    fn put_horizontal_run(
        &mut self,
        start: char,
        middle: char,
        end: char,
        row: usize,
        col: usize,
        len: usize,
    )
        requires
            old(self).wf(),
            len >= 1,
            row < old(self)@.len(),
            col + len <= old(self).cols(),
        ensures
            final(self).wf(),
            final(self).cols() == old(self).cols(),
            final(self)@ == with_horizontal_run(old(self)@, start, middle, end, row as int, col as int, len as int),
    {
        let ghost grid = self@;
        let ghost target = with_horizontal_run(grid, start, middle, end, row as int, col as int, len as int);
        assert(grid[row as int].len() == self.width);
        let last = col + len - 1;
        self.canvas[row][col] = start;
        let mut k: usize = col + 1;
        while k < last
            invariant
                col < k,
                k <= last || k == col + 1,
                last == col + len - 1,
                last < self.width,
                row < self.canvas@.len(),
                self.width == old(self).width,
                self.canvas@.len() == grid.len(),
                forall|i: int| 0 <= i < grid.len() && i != row ==> self.canvas@[i]@ == grid[i],
                grid[row as int].len() == self.width,
                self.canvas@[row as int]@.len() == grid[row as int].len(),
                forall|j: int|
                    0 <= j < grid[row as int].len() ==> #[trigger] self.canvas@[row as int]@[j] == (if j
                        == col as int {
                        start
                    } else if col < j < k {
                        middle
                    } else {
                        grid[row as int][j]
                    }),
            decreases last - k,
        {
            self.canvas[row][k] = middle;
            k = k + 1;
        }
        self.canvas[row][last] = end;
        assert(self@ =~= target) by {
            assert forall|i: int| 0 <= i < grid.len() implies self@[i] =~= target[i] by {
                assert(self@[i] == self.canvas@[i]@);
            }
        }
    }

    /// Writes the run down column `col` from row `row`: start, middle cells
    /// top to bottom, end.
    fn put_vertical_run(
        &mut self,
        start: char,
        middle: char,
        end: char,
        row: usize,
        col: usize,
        len: usize,
    )
        requires
            old(self).wf(),
            len >= 1,
            row + len <= old(self)@.len(),
            col < old(self).cols(),
        ensures
            final(self).wf(),
            final(self).cols() == old(self).cols(),
            final(self)@ == with_vertical_run(old(self)@, start, middle, end, row as int, col as int, len as int),
    {
        let ghost grid = self@;
        let ghost target = with_vertical_run(grid, start, middle, end, row as int, col as int, len as int);
        let height = self.canvas.len();
        assert(grid.len() == height);
        let last = row + len - 1;
        assert(grid[row as int].len() == self.width);
        self.canvas[row][col] = start;
        let mut k: usize = row + 1;
        while k < last
            invariant
                row < k,
                k <= last || k == row + 1,
                last == row + len - 1,
                last < self.canvas@.len(),
                col < self.width,
                self.width == old(self).width,
                self.canvas@.len() == grid.len(),
                is_rectangular(grid, self.width as nat),
                forall|i: int|
                    0 <= i < grid.len() ==> #[trigger] self.canvas@[i]@ == (if i == row as int {
                        grid[i].update(col as int, start)
                    } else if row < i < k {
                        grid[i].update(col as int, middle)
                    } else {
                        grid[i]
                    }),
            decreases last - k,
        {
            assert(grid[k as int].len() == self.width);
            self.canvas[k][col] = middle;
            k = k + 1;
        }
        assert(grid[last as int].len() == self.width);
        self.canvas[last][col] = end;
        assert(self@ =~= target) by {
            assert forall|i: int| 0 <= i < grid.len() implies self@[i] =~= target[i] by {
                assert(self@[i] == self.canvas@[i]@);
                assert(grid[i].len() == self.width);
            }
        }
    }

    /// Draws a run of `len` cells along row `start_position.0`, starting at
    /// column `start_position.1`: `init_char`, then `middle_char` in each
    /// inner cell, then `last_char` in the last cell. A run of one cell holds
    /// `last_char`.
    pub fn draw_horizontal_line(
        &mut self,
        init_char: char,
        middle_char: char,
        last_char: char,
        start_position: (usize, usize),
        len: usize,
    ) -> (res: Result<(), DrawError>)
        requires
            old(self).wf(),
        ensures
            final(self).wf(),
            final(self).cols() == old(self).cols(),
            len == 0 ==> res == Err::<(), DrawError>(DrawError::InvalidLength),
            len > 0 && !horizontal_fits(old(self)@.len(), old(self).cols(), start_position, len) ==> res
                == Err::<(), DrawError>(DrawError::OutOfBounds),
            res is Err ==> final(self)@ == old(self)@,
            len > 0 && horizontal_fits(old(self)@.len(), old(self).cols(), start_position, len) ==> res
                is Ok && final(self)@ == with_horizontal_run(
                old(self)@,
                init_char,
                middle_char,
                last_char,
                start_position.0 as int,
                start_position.1 as int,
                len as int,
            ),
    {
        let (row, col) = start_position;
        if len == 0 {
            return Err(DrawError::InvalidLength);
        }
        if row >= self.canvas.len() || col >= self.width || len > self.width - col {
            return Err(DrawError::OutOfBounds);
        }
        self.put_horizontal_run(init_char, middle_char, last_char, row, col, len);
        Ok(())
    }

    /// Draws a run of `len` cells down column `start_position.1`, starting at
    /// row `start_position.0`: `init_char`, then `middle_char` in each inner
    /// cell, then `last_char` in the last cell. A run of one cell holds
    /// `last_char`.
    pub fn draw_vertical_line(
        &mut self,
        init_char: char,
        middle_char: char,
        last_char: char,
        start_position: (usize, usize),
        len: usize,
    ) -> (res: Result<(), DrawError>)
        requires
            old(self).wf(),
        ensures
            final(self).wf(),
            final(self).cols() == old(self).cols(),
            len == 0 ==> res == Err::<(), DrawError>(DrawError::InvalidLength),
            len > 0 && !vertical_fits(old(self)@.len(), old(self).cols(), start_position, len) ==> res
                == Err::<(), DrawError>(DrawError::OutOfBounds),
            res is Err ==> final(self)@ == old(self)@,
            len > 0 && vertical_fits(old(self)@.len(), old(self).cols(), start_position, len) ==> res
                is Ok && final(self)@ == with_vertical_run(
                old(self)@,
                init_char,
                middle_char,
                last_char,
                start_position.0 as int,
                start_position.1 as int,
                len as int,
            ),
    {
        let (row, col) = start_position;
        if len == 0 {
            return Err(DrawError::InvalidLength);
        }
        if col >= self.width || row >= self.canvas.len() || len > self.canvas.len() - row {
            return Err(DrawError::OutOfBounds);
        }
        self.put_vertical_run(init_char, middle_char, last_char, row, col, len);
        Ok(())
    }

    /// Draws the border of the `len` by `len` square whose top left corner is
    /// `start_position`: `'+'` at the four corners, `'-'` along the top and
    /// bottom edges, `'|'` along the left and right edges. Cells inside the
    /// square are left as they were.
    pub fn draw_square(&mut self, start_position: (usize, usize), len: usize) -> (res: Result<(), DrawError>)
        requires
            old(self).wf(),
        ensures
            final(self).wf(),
            final(self).cols() == old(self).cols(),
            len < 2 ==> res == Err::<(), DrawError>(DrawError::InvalidLength),
            len >= 2 && !square_fits(old(self)@.len(), old(self).cols(), start_position, len) ==> res
                == Err::<(), DrawError>(DrawError::OutOfBounds),
            res is Err ==> final(self)@ == old(self)@,
            len >= 2 && square_fits(old(self)@.len(), old(self).cols(), start_position, len) ==> res
                is Ok && final(self)@ == with_square(
                old(self)@,
                start_position.0 as int,
                start_position.1 as int,
                len as int,
            ),
    {
        let (row, col) = start_position;
        if len < 2 {
            return Err(DrawError::InvalidLength);
        }
        let height = self.canvas.len();
        if row >= height || len > height - row || col >= self.width || len > self.width - col {
            return Err(DrawError::OutOfBounds);
        }
        proof {
            lemma_square_as_runs(self@, self.cols(), row as int, col as int, len as int);
        }
        let bottom = row + len - 1;
        let right = col + len - 1;
        self.put_horizontal_run('+', '-', '+', row, col, len);
        self.put_vertical_run('+', '|', '+', row, col, len);
        self.put_horizontal_run('+', '-', '+', bottom, col, len);
        self.put_vertical_run('+', '|', '+', row, right, len);
        Ok(())
    }

    /// The canvas as text: each row's cells left to right followed by a
    /// line break, rows top to bottom. Reading it leaves the canvas as it is.
    pub fn get_string(&self) -> (r: String)
        requires
            self.wf(),
        ensures
            r@ == render(self@),
    {
        let ghost grid = self@;
        let mut result = String::new();
        let mut i: usize = 0;
        while i < self.canvas.len()
            invariant
                i <= grid.len(),
                grid.len() == self.canvas@.len(),
                grid == self@,
                result@ == render(grid.take(i as int)),
            decreases grid.len() - i,
        {
            let line = &self.canvas[i];
            assert(line@ == grid[i as int]);
            let ghost before = result@;
            let mut j: usize = 0;
            while j < line.len()
                invariant
                    j <= line@.len(),
                    result@ == before + line@.take(j as int),
                decreases line@.len() - j,
            {
                push_char(&mut result, line[j]);
                assert(line@.take(j as int).push(line@[j as int]) =~= line@.take(j + 1));
                j = j + 1;
            }
            push_char(&mut result, '\n');
            assert(grid.take(i + 1).drop_last() =~= grid.take(i as int));
            assert(line@.take(j as int) =~= line@);
            assert(result@ =~= render(grid.take(i + 1)));
            i = i + 1;
        }
        assert(grid.take(i as int) =~= grid);
        result
    }
}

} // verus!
