//! The grid buffer and the composition of terminal frames from it.

use crate::clock::{clock_now, second_elapsed, window_elapsed, Timestamp};
use crate::coords::{modulus, wrap};
use crate::text::{
    cursor_up, decimal, fps_label, line_break, push_cursor_up, push_decimal, push_fps_label,
    push_line_break, repeated,
};
use vstd::prelude::*;
use vstd::string::StringExecFns;

verus! {

/// What a cell holds until it is written: one space.
pub open spec fn blank_cell() -> Seq<char> {
    seq![' ']
}

/// The cells of one row, left to right, with nothing between them.
pub open spec fn row_text(row: Seq<Seq<char>>) -> Seq<char>
    decreases row.len(),
{
    if row.len() == 0 {
        Seq::empty()
    } else {
        row_text(row.drop_last()) + row.last()
    }
}

/// The rows, top to bottom, with a line break between each two.
pub open spec fn rows_text(rows: Seq<Seq<Seq<char>>>) -> Seq<char>
    decreases rows.len(),
{
    if rows.len() == 0 {
        Seq::empty()
    } else if rows.len() == 1 {
        row_text(rows[0])
    } else {
        rows_text(rows.drop_last()) + line_break() + row_text(rows.last())
    }
}

/// A grid of `height` rows of `width` blank cells.
pub open spec fn blank_grid(width: int, height: int) -> Seq<Seq<Seq<char>>> {
    Seq::new(height as nat, |i: int| Seq::new(width as nat, |j: int| blank_cell()))
}

/// The mathematical value of a board.
pub struct BoardView {
    pub width: int,
    pub height: int,
    /// Storage rows, the top line first; each holds its cells left to right.
    pub cells: Seq<Seq<Seq<char>>>,
    pub has_drawn_before: bool,
    pub draw_count: nat,
    pub fps: nat,
    pub fps_window_start: Timestamp,
}

impl BoardView {
    /// The grid has `height` rows of `width` cells, and neither is zero.
    pub open spec fn wf(self) -> bool {
        &&& 0 < self.width <= i32::MAX
        &&& 0 < self.height <= i32::MAX
        &&& self.cells.len() == self.height
        &&& forall|i: int| 0 <= i < self.height ==> (#[trigger] self.cells[i]).len() == self.width
    }

    /// The storage row of the cartesian line `y`: line 0 is the bottom row.
    pub open spec fn storage_row(self, y: int) -> int {
        self.height - 1 - wrap(y, self.height)
    }

    /// The storage column of the cartesian column `x`.
    pub open spec fn storage_col(self, x: int) -> int {
        wrap(x, self.width)
    }

    /// What the cell at the cartesian position `(x, y)` holds.
    pub open spec fn cell(self, x: int, y: int) -> Seq<char> {
        self.cells[self.storage_row(y)][self.storage_col(x)]
    }

    /// The board with the cell at `(x, y)` overwritten by `value`.
    pub open spec fn with_cell(self, x: int, y: int, value: Seq<char>) -> BoardView {
        BoardView {
            cells: self.cells.update(
                self.storage_row(y),
                self.cells[self.storage_row(y)].update(self.storage_col(x), value),
            ),
            ..self
        }
    }

    /// The serialized grid.
    pub open spec fn text(self) -> Seq<char> {
        rows_text(self.cells)
    }

    /// What stands in front of the grid in the next frame: nothing in the
    /// first frame, afterwards one cursor-up sequence for each line of
    /// the frame before.
    pub open spec fn redraw_prefix(self) -> Seq<char> {
        if self.has_drawn_before {
            repeated(cursor_up(), (self.height + 1) as nat)
        } else {
            Seq::empty()
        }
    }

    /// The board after a frame was composed at `now`: it has drawn, and
    /// where the sampling window is over, the frame rate is the number
    /// of frames counted in it and a new window opens at `now`.
    pub open spec fn after_frame(self, now: Timestamp) -> BoardView {
        if window_elapsed(self.fps_window_start, now) {
            BoardView {
                has_drawn_before: true,
                fps: self.draw_count,
                draw_count: 0,
                fps_window_start: now,
                ..self
            }
        } else {
            BoardView { has_drawn_before: true, ..self }
        }
    }

    /// The line that shows the frame rate, line break included.
    pub open spec fn fps_line(self) -> Seq<char> {
        fps_label() + decimal(self.fps) + line_break()
    }

    /// The frame composed at `now`.
    pub open spec fn frame(self, now: Timestamp) -> Seq<char> {
        self.redraw_prefix() + self.text() + line_break() + self.after_frame(now).fps_line()
    }

    /// The board after one more frame was counted; the count stays where
    /// it is once it has reached the largest number it can hold.
    pub open spec fn after_frame_drawn(self) -> BoardView {
        BoardView {
            draw_count: if self.draw_count < u64::MAX {
                self.draw_count + 1
            } else {
                self.draw_count
            },
            ..self
        }
    }
}

/// Why a board cannot be made.
#[derive(Clone, Copy, Debug, PartialEq, Eq, Structural)]
pub enum BoardError {
    /// The width is zero or negative.
    WidthNotPositive,
    /// The width is positive; the height is zero or negative.
    HeightNotPositive,
}

/// A fixed-size grid of text cells, addressed by cartesian coordinates
/// that wrap around, with the state of its frame-rate counter.
pub struct Board {
    width: i32,
    height: i32,
    been_drawn: bool,
    draw_count: u64,
    fps: u64,
    fps_time: Timestamp,
    str_board: Vec<Vec<String>>,
}

spec fn row_view(row: Vec<String>) -> Seq<Seq<char>> {
    Seq::new(row@.len(), |j: int| row@[j]@)
}

spec fn grid_view(rows: Vec<Vec<String>>) -> Seq<Seq<Seq<char>>> {
    Seq::new(rows@.len(), |i: int| row_view(rows@[i]))
}

impl View for Board {
    type V = BoardView;

    closed spec fn view(&self) -> BoardView {
        BoardView {
            width: self.width as int,
            height: self.height as int,
            cells: grid_view(self.str_board),
            has_drawn_before: self.been_drawn,
            draw_count: self.draw_count as nat,
            fps: self.fps as nat,
            fps_window_start: self.fps_time,
        }
    }
}

/// A row of `width` blank cells.
fn blank_row(width: i32) -> (row: Vec<String>)
    requires
        width > 0,
    ensures
        row_view(row) == Seq::new(width as nat, |j: int| blank_cell()),
{
    let mut row: Vec<String> = Vec::new();
    let mut j: i32 = 0;
    proof {
        reveal_strlit(" ");
    }
    assert(" "@ =~= blank_cell());
    while j < width
        invariant
            0 <= j <= width,
            row@.len() == j,
            " "@ == blank_cell(),
            forall|k: int| 0 <= k < j ==> (#[trigger] row@[k])@ == blank_cell(),
        decreases width - j,
    {
        row.push(String::from_str(" "));
        j = j + 1;
    }
    assert(row_view(row) =~= Seq::new(width as nat, |j: int| blank_cell()));
    row
}

/// Appends the cells of `row` to `out`, left to right.
fn push_row(out: &mut String, row: &Vec<String>)
    ensures
        final(out)@ == old(out)@ + row_text(row_view(*row)),
{
    let mut j: usize = 0;
    assert(old(out)@ + row_text(row_view(*row).take(0)) =~= old(out)@);
    while j < row.len()
        invariant
            0 <= j <= row@.len(),
            out@ == old(out)@ + row_text(row_view(*row).take(j as int)),
        decreases row@.len() - j,
    {
        out.append(row[j].as_str());
        proof {
            let cells = row_view(*row);
            assert(cells.take(j + 1).drop_last() =~= cells.take(j as int));
            assert(cells.take(j + 1).last() == row@[j as int]@);
            assert(old(out)@ + row_text(cells.take(j as int)) + row@[j as int]@ =~= old(out)@
                + row_text(cells.take(j + 1)));
        }
        j = j + 1;
    }
    assert(row_view(*row).take(row@.len() as int) =~= row_view(*row));
}

impl Board {
    /// A board of `width` by `height` blank cells that has drawn no frame
    /// and counted none, with a sampling window that opens at `now`.
    pub fn new_at(width: i32, height: i32, now: Timestamp) -> (made: Result<Board, BoardError>)
        ensures
            width <= 0 ==> made == Err::<Board, BoardError>(BoardError::WidthNotPositive),
            width > 0 && height <= 0 ==> made == Err::<Board, BoardError>(
                BoardError::HeightNotPositive,
            ),
            width > 0 && height > 0 ==> made is Ok && made->Ok_0@.wf() && made->Ok_0@ == (BoardView {
                width: width as int,
                height: height as int,
                cells: blank_grid(width as int, height as int),
                has_drawn_before: false,
                draw_count: 0,
                fps: 0,
                fps_window_start: now,
            }),
    {
        if width <= 0 {
            return Err(BoardError::WidthNotPositive);
        }
        if height <= 0 {
            return Err(BoardError::HeightNotPositive);
        }
        let mut rows: Vec<Vec<String>> = Vec::new();
        let mut i: i32 = 0;
        while i < height
            invariant
                width > 0,
                0 <= i <= height,
                rows@.len() == i,
                forall|k: int|
                    0 <= k < i ==> row_view(#[trigger] rows@[k]) == Seq::new(
                        width as nat,
                        |j: int| blank_cell(),
                    ),
            decreases height - i,
        {
            rows.push(blank_row(width));
            i = i + 1;
        }
        assert(grid_view(rows) =~= blank_grid(width as int, height as int));
        Ok(
            Board {
                width,
                height,
                been_drawn: false,
                draw_count: 0,
                fps: 0,
                fps_time: now,
                str_board: rows,
            },
        )
    }

    /// A board of `width` by `height` blank cells whose sampling window
    /// opens at the moment of the call.
    pub fn new(width: i32, height: i32) -> (made: Result<Board, BoardError>)
        ensures
            width <= 0 ==> made == Err::<Board, BoardError>(BoardError::WidthNotPositive),
            width > 0 && height <= 0 ==> made == Err::<Board, BoardError>(
                BoardError::HeightNotPositive,
            ),
            width > 0 && height > 0 ==> made is Ok && made->Ok_0@.wf() && made->Ok_0@ == (BoardView {
                width: width as int,
                height: height as int,
                cells: blank_grid(width as int, height as int),
                has_drawn_before: false,
                draw_count: 0,
                fps: 0,
                fps_window_start: made->Ok_0@.fps_window_start,
            }),
    {
        Board::new_at(width, height, clock_now())
    }

    /// Overwrites the cell at the cartesian position `(x, y)` with
    /// `value`; both coordinates wrap around the grid.
    pub fn set_cell(&mut self, x: i32, y: i32, value: String)
        requires
            old(self)@.wf(),
        ensures
            final(self)@ == old(self)@.with_cell(x as int, y as int, value@),
            final(self)@.wf(),
    {
        let col = modulus(x, self.width);
        let row = self.height - 1 - modulus(y, self.height);
        proof {
            let cells = grid_view(self.str_board);
            assert(cells.len() == self.str_board@.len());
            assert(cells[row as int].len() == self.str_board@[row as int]@.len());
        }
        self.str_board[row as usize][col as usize] = value;
        assert(grid_view(self.str_board) =~~= old(self)@.with_cell(x as int, y as int, value@).cells);
    }

    /// Serializes the grid: each row's cells with nothing between them,
    /// the rows joined by line breaks.
    pub fn board_str(&self) -> (text: String)
        requires
            self@.wf(),
        ensures
            text@ == self@.text(),
    {
        let mut out = String::new();
        let mut i: usize = 0;
        assert(grid_view(self.str_board).take(0) =~= Seq::empty());
        while i < self.str_board.len()
            invariant
                0 <= i <= self.str_board@.len(),
                out@ == rows_text(grid_view(self.str_board).take(i as int)),
            decreases self.str_board@.len() - i,
        {
            if i > 0 {
                push_line_break(&mut out);
            }
            push_row(&mut out, &self.str_board[i]);
            proof {
                let rows = grid_view(self.str_board);
                assert(rows.take(i + 1).drop_last() =~= rows.take(i as int));
                assert(rows.take(i + 1).last() == row_view(self.str_board@[i as int]));
                if i == 0 {
                    assert(Seq::<char>::empty() + row_text(rows[0]) =~= row_text(rows[0]));
                }
            }
            i = i + 1;
        }
        assert(grid_view(self.str_board).take(self.str_board@.len() as int) =~= grid_view(
            self.str_board,
        ));
        out
    }

    /// What the cell at the cartesian position `(x, y)` holds; both
    /// coordinates wrap around the grid.
    pub fn cell(&self, x: i32, y: i32) -> (held: &String)
        requires
            self@.wf(),
        ensures
            held@ == self@.cell(x as int, y as int),
    {
        let col = modulus(x, self.width);
        let row = self.height - 1 - modulus(y, self.height);
        proof {
            let cells = grid_view(self.str_board);
            assert(cells.len() == self.str_board@.len());
            assert(cells[row as int].len() == self.str_board@[row as int]@.len());
        }
        &self.str_board[row as usize][col as usize]
    }

    /// What the cell in storage row `row` (row 0 is the top line) and
    /// column `col` holds, if the grid has such a cell.
    pub fn storage_cell(&self, row: usize, col: usize) -> (held: Option<&String>)
        requires
            self@.wf(),
        ensures
            held is Some <==> row < self@.height && col < self@.width,
            held is Some ==> held->Some_0@ == self@.cells[row as int][col as int],
    {
        proof {
            let cells = grid_view(self.str_board);
            assert(cells.len() == self.str_board@.len());
            if row < self.str_board@.len() {
                assert(cells[row as int].len() == self.str_board@[row as int]@.len());
            }
        }
        if row < self.str_board.len() && col < self.str_board[row].len() {
            Some(&self.str_board[row][col])
        } else {
            None
        }
    }

    /// Composes the frame for the moment `now`: the cursor-up sequences
    /// that take the cursor back over the frame before (none in the first
    /// frame), the grid, and the line of the frame rate. Where the
    /// sampling window is over at `now`, the frame rate is first set to
    /// the frames counted in it, and a new window opens. The frame itself
    /// is not counted: that is what `record_frame_drawn` is for.
    pub fn get_frame_at(&mut self, now: Timestamp) -> (frame: String)
        requires
            old(self)@.wf(),
        ensures
            frame@ == old(self)@.frame(now),
            final(self)@ == old(self)@.after_frame(now),
            final(self)@.wf(),
    {
        let mut frame = String::new();
        if self.been_drawn {
            let lines: i64 = self.height as i64 + 1;
            let mut k: i64 = 0;
            assert(repeated(cursor_up(), 0) =~= Seq::empty());
            while k < lines
                invariant
                    0 <= k <= lines,
                    lines == self.height + 1,
                    frame@ == repeated(cursor_up(), k as nat),
                decreases lines - k,
            {
                push_cursor_up(&mut frame);
                k = k + 1;
            }
        }
        assert(frame@ == old(self)@.redraw_prefix());
        let grid = self.board_str();
        frame.append(grid.as_str());
        push_line_break(&mut frame);
        if second_elapsed(self.fps_time, now) {
            self.fps = self.draw_count;
            self.draw_count = 0;
            self.fps_time = now;
        }
        push_fps_label(&mut frame);
        push_decimal(&mut frame, self.fps);
        push_line_break(&mut frame);
        self.been_drawn = true;
        assert(frame@ =~= old(self)@.frame(now));
        frame
    }

    /// Composes the frame for the moment of the call, which it reads from
    /// the clock once.
    pub fn get_frame(&mut self) -> (frame: String)
        requires
            old(self)@.wf(),
        ensures
            exists|now: Timestamp|
                frame@ == #[trigger] old(self)@.frame(now) && final(self)@ == old(self)@.after_frame(
                    now,
                ),
            final(self)@.wf(),
    {
        let now = clock_now();
        self.get_frame_at(now)
    }

    /// Counts one frame as drawn in the current sampling window.
    pub fn record_frame_drawn(&mut self)
        ensures
            final(self)@ == old(self)@.after_frame_drawn(),
    {
        if self.draw_count < u64::MAX {
            self.draw_count = self.draw_count + 1;
        }
    }

    /// Sets the frame rate that the next frames show.
    pub fn set_fps(&mut self, fps: u64)
        ensures
            final(self)@ == (BoardView { fps: fps as nat, ..old(self)@ }),
    {
        self.fps = fps;
    }

    /// Sets the number of frames counted in the current sampling window.
    pub fn set_draw_count(&mut self, draw_count: u64)
        ensures
            final(self)@ == (BoardView { draw_count: draw_count as nat, ..old(self)@ }),
    {
        self.draw_count = draw_count;
    }

    /// Says whether the next frame has a frame before it to overwrite.
    pub fn set_has_drawn_before(&mut self, drawn: bool)
        ensures
            final(self)@ == (BoardView { has_drawn_before: drawn, ..old(self)@ }),
    {
        self.been_drawn = drawn;
    }

    /// The number of columns.
    pub fn width(&self) -> (w: i32)
        ensures
            w == self@.width,
    {
        self.width
    }

    /// The number of rows.
    pub fn height(&self) -> (h: i32)
        ensures
            h == self@.height,
    {
        self.height
    }

    /// The frame rate of the last sampling window that ended.
    pub fn fps(&self) -> (f: u64)
        ensures
            f == self@.fps,
    {
        self.fps
    }

    /// The frames counted in the current sampling window.
    pub fn draw_count(&self) -> (n: u64)
        ensures
            n == self@.draw_count,
    {
        self.draw_count
    }

    /// Whether a frame was composed before.
    pub fn has_drawn_before(&self) -> (drawn: bool)
        ensures
            drawn == self@.has_drawn_before,
    {
        self.been_drawn
    }

    /// The start of the current sampling window.
    pub fn fps_window_start(&self) -> (start: Timestamp)
        ensures
            start == self@.fps_window_start,
    {
        self.fps_time
    }
}

} // verus!
