//! What holds of the grid, of its frames and of the bounce-start delay,
//! for every board and every input.

use crate::block::{bounce_delay_millis, draw_scale, unit_draw};
use crate::board::{blank_cell, blank_grid, row_text, rows_text, BoardView};
use crate::clock::{window_elapsed, Timestamp};
use crate::coords::wrap;
use crate::text::{
    count_char, cursor_up, decimal, fps_label, lemma_count_char_concat, lemma_count_char_repeated,
    lemma_decimal_digits, line_break, repeated,
};
use vstd::prelude::*;

verus! {

/// Every cell of the grid holds exactly one character.
pub open spec fn single_width(cells: Seq<Seq<Seq<char>>>) -> bool {
    forall|i: int, j: int|
        0 <= i < cells.len() && 0 <= j < cells[i].len() ==> (#[trigger] cells[i][j]).len() == 1
}

/// No cell of the grid holds the character `c`.
pub open spec fn free_of(cells: Seq<Seq<Seq<char>>>, c: char) -> bool {
    forall|i: int, j: int|
        0 <= i < cells.len() && 0 <= j < cells[i].len() ==> count_char(#[trigger] cells[i][j], c)
            == 0
}

/// Where line `i` begins in the text of a grid of single-character cells
/// that is `width` columns wide: each line before it takes `width`
/// characters and a line break.
#[verifier::opaque]
pub open spec fn line_start(i: int, width: int) -> int {
    i * (width + 2)
}

/// Where the cell in column `j` of line `i` stands in such a text.
pub open spec fn cell_start(i: int, j: int, width: int) -> int {
    line_start(i, width) + j
}

/// The first line begins at the start of the text, and each further line
/// `width + 2` characters after the line before it.
pub proof fn lemma_line_start_step(i: int, width: int)
    ensures
        line_start(0, width) == 0,
        line_start(i + 1, width) == line_start(i, width) + width + 2,
{
    reveal(line_start);
    assert((i + 1) * (width + 2) == i * (width + 2) + width + 2) by (nonlinear_arith);
    assert(0 * (width + 2) == 0) by (nonlinear_arith);
}

proof fn lemma_count_char_absent(s: Seq<char>, c: char)
    requires
        forall|i: int| 0 <= i < s.len() ==> s[i] != c,
    ensures
        count_char(s, c) == 0,
    decreases s.len(),
{
    if s.len() > 0 {
        lemma_count_char_absent(s.drop_last(), c);
    }
}

proof fn lemma_line_break_counts(c: char)
    ensures
        count_char(line_break(), '\n') == 1,
        c != '\r' && c != '\n' ==> count_char(line_break(), c) == 0,
{
    assert(line_break().drop_last() =~= seq!['\r']);
    lemma_count_char_absent(seq!['\r'], '\n');
    if c != '\r' && c != '\n' {
        lemma_count_char_absent(line_break(), c);
    }
}

proof fn lemma_cursor_up_counts()
    ensures
        count_char(cursor_up(), '\x1B') == 1,
        count_char(cursor_up(), '\n') == 0,
{
    assert(cursor_up() =~= seq!['\r', '\x1B'] + seq!['[', '1', 'F']);
    lemma_count_char_concat(seq!['\r', '\x1B'], seq!['[', '1', 'F'], '\x1B');
    lemma_count_char_absent(seq!['[', '1', 'F'], '\x1B');
    assert(seq!['\r', '\x1B'].drop_last() =~= seq!['\r']);
    lemma_count_char_absent(seq!['\r'], '\x1B');
    lemma_count_char_absent(cursor_up(), '\n');
}

proof fn lemma_fps_line_counts(fps: nat, c: char)
    requires
        c == '\x1B' || c == '\n',
    ensures
        count_char(fps_label() + decimal(fps), c) == 0,
{
    lemma_decimal_digits(fps);
    lemma_count_char_absent(fps_label() + decimal(fps), c);
}

proof fn lemma_row_text_count(row: Seq<Seq<char>>, c: char)
    requires
        forall|j: int| 0 <= j < row.len() ==> count_char(#[trigger] row[j], c) == 0,
    ensures
        count_char(row_text(row), c) == 0,
    decreases row.len(),
{
    if row.len() > 0 {
        lemma_row_text_count(row.drop_last(), c);
        lemma_count_char_concat(row_text(row.drop_last()), row.last(), c);
    }
}

proof fn lemma_rows_text_count(rows: Seq<Seq<Seq<char>>>, c: char)
    requires
        rows.len() >= 1,
        free_of(rows, c),
    ensures
        count_char(rows_text(rows), c) == (rows.len() - 1) * count_char(line_break(), c),
    decreases rows.len(),
{
    let k = count_char(line_break(), c);
    assert forall|j: int| 0 <= j < rows.last().len() implies count_char(
        #[trigger] rows.last()[j],
        c,
    ) == 0 by {
        assert(rows.last()[j] == rows[rows.len() - 1][j]);
    }
    lemma_row_text_count(rows.last(), c);
    if rows.len() == 1 {
        assert(rows[0] == rows.last());
        assert(0 * k == 0) by (nonlinear_arith);
    } else {
        let front = rows.drop_last();
        assert forall|i: int, j: int| 0 <= i < front.len() && 0 <= j < front[i].len() implies count_char(
            #[trigger] front[i][j],
            c,
        ) == 0 by {
            assert(front[i][j] == rows[i][j]);
        }
        lemma_rows_text_count(front, c);
        lemma_count_char_concat(rows_text(front), line_break(), c);
        lemma_count_char_concat(rows_text(front) + line_break(), row_text(rows.last()), c);
        assert((rows.len() - 1) * k == (rows.len() - 2) * k + k) by (nonlinear_arith);
    }
}

proof fn lemma_row_text_single(row: Seq<Seq<char>>)
    requires
        forall|j: int| 0 <= j < row.len() ==> (#[trigger] row[j]).len() == 1,
    ensures
        row_text(row).len() == row.len(),
        forall|j: int| 0 <= j < row.len() ==> row_text(row)[j] == (#[trigger] row[j])[0],
    decreases row.len(),
{
    if row.len() > 0 {
        lemma_row_text_single(row.drop_last());
        assert forall|j: int| 0 <= j < row.len() implies row_text(row)[j] == (#[trigger] row[j])[0] by {
            if j < row.len() - 1 {
                assert(row.drop_last()[j] == row[j]);
            }
        }
    }
}

/// Every row of the grid holds `width` cells.
pub open spec fn rows_of_width(cells: Seq<Seq<Seq<char>>>, width: int) -> bool {
    forall|i: int| 0 <= i < cells.len() ==> (#[trigger] cells[i]).len() == width
}

proof fn lemma_front_keeps_shape(cells: Seq<Seq<Seq<char>>>, width: int)
    requires
        cells.len() >= 1,
        rows_of_width(cells, width),
        single_width(cells),
    ensures
        rows_of_width(cells.drop_last(), width),
        single_width(cells.drop_last()),
        row_text(cells.last()).len() == width,
        forall|j: int| 0 <= j < width ==> row_text(cells.last())[j] == (#[trigger] cells.last()[j])[0],
{
    let front = cells.drop_last();
    let last = cells.last();
    assert forall|i: int| 0 <= i < front.len() implies (#[trigger] front[i]).len() == width by {
        assert(front[i] == cells[i]);
    }
    assert forall|i: int, j: int| 0 <= i < front.len() && 0 <= j < front[i].len() implies (
    #[trigger] front[i][j]).len() == 1 by {
        assert(front[i][j] == cells[i][j]);
    }
    assert(last == cells[cells.len() - 1]);
    assert forall|j: int| 0 <= j < last.len() implies (#[trigger] last[j]).len() == 1 by {
        assert(last[j] == cells[cells.len() - 1][j]);
    }
    lemma_row_text_single(last);
}

/// The text of a grid of single-character cells, line by line: line `i`
/// begins at `line_start(i, width)` and holds the characters of storage
/// row `i` from left to right; the text ends with the last line.
pub proof fn law_text_layout(cells: Seq<Seq<Seq<char>>>, width: int)
    requires
        cells.len() >= 1,
        width >= 0,
        rows_of_width(cells, width),
        single_width(cells),
    ensures
        rows_text(cells).len() == line_start(cells.len() as int, width) - 2,
        forall|i: int, j: int|
            #![trigger cell_start(i, j, width)]
            #![trigger cells[i][j]]
            0 <= i < cells.len() && 0 <= j < width ==> 0 <= cell_start(i, j, width) < rows_text(
                cells,
            ).len() && rows_text(cells)[cell_start(i, j, width)] == cells[i][j][0],
    decreases cells.len(),
{
    let n = cells.len() as int;
    let last = cells.last();
    let front = cells.drop_last();
    lemma_front_keeps_shape(cells, width);
    lemma_line_start_step(n - 1, width);
    if n == 1 {
        assert(cells[0] == last);
    } else {
        law_text_layout(front, width);
        assert(rows_text(cells) == rows_text(front) + line_break() + row_text(last));
    }
    assert forall|i: int, j: int|
        #![trigger cell_start(i, j, width)]
        #![trigger cells[i][j]]
        0 <= i < cells.len() && 0 <= j < width implies 0 <= cell_start(i, j, width) < rows_text(
        cells,
    ).len() && rows_text(cells)[cell_start(i, j, width)] == cells[i][j][0] by {
        if i < n - 1 {
            assert(front[i][j] == cells[i][j]);
            assert(rows_text(cells)[cell_start(i, j, width)] == rows_text(front)[cell_start(
                i,
                j,
                width,
            )]);
        } else {
            assert(rows_text(cells)[line_start(n - 1, width) + j] == row_text(last)[j]);
            assert(last[j] == cells[i][j]);
        }
    }
}

/// In the text of a grid of single-character cells, every line but the
/// last is followed by a line break.
pub proof fn law_text_line_breaks(cells: Seq<Seq<Seq<char>>>, width: int)
    requires
        cells.len() >= 1,
        width >= 0,
        rows_of_width(cells, width),
        single_width(cells),
    ensures
        forall|i: int|
            0 <= i < cells.len() - 1 ==> {
                let at = #[trigger] line_start(i, width) + width;
                &&& 0 <= at && at + 1 < rows_text(cells).len()
                &&& rows_text(cells)[at] == '\r'
                &&& rows_text(cells)[at + 1] == '\n'
            },
    decreases cells.len(),
{
    let n = cells.len() as int;
    let text = rows_text(cells);
    if n > 1 {
        let front = cells.drop_last();
        let head = rows_text(front);
        lemma_front_keeps_shape(cells, width);
        law_text_layout(front, width);
        law_text_line_breaks(front, width);
        assert(text == head + line_break() + row_text(cells.last()));
        assert forall|i: int| 0 <= i < n - 1 implies {
            let at = #[trigger] line_start(i, width) + width;
            &&& 0 <= at && at + 1 < text.len()
            &&& text[at] == '\r'
            &&& text[at + 1] == '\n'
        } by {
            let at = line_start(i, width) + width;
            lemma_line_start_step(i, width);
            if i < n - 2 {
                assert(text[at] == head[at]);
                assert(text[at + 1] == head[at + 1]);
            } else {
                assert(at == head.len());
                assert(text[at] == line_break()[0]);
                assert(text[at + 1] == line_break()[1]);
            }
        }
    }
}

/// The text of a board that was never written is `height` lines of
/// `width` spaces each, with a line break after every line but the last.
pub proof fn law_blank_text(width: int, height: int)
    requires
        width > 0,
        height > 0,
    ensures
        rows_text(blank_grid(width, height)).len() == line_start(height, width) - 2,
        forall|i: int, j: int|
            0 <= i < height && 0 <= j < width ==> rows_text(blank_grid(width, height))[#[trigger] cell_start(
                i,
                j,
                width,
            )] == ' ',
        forall|i: int|
            0 <= i < height - 1 ==> rows_text(blank_grid(width, height))[#[trigger] line_start(
                i,
                width,
            ) + width] == '\r' && rows_text(blank_grid(width, height))[line_start(i, width) + width
                + 1] == '\n',
{
    let cells = blank_grid(width, height);
    assert(rows_of_width(cells, width));
    assert(single_width(cells));
    law_text_layout(cells, width);
    law_text_line_breaks(cells, width);
}

/// A cell that was written holds what was written to it, whichever of
/// the coordinates that wrap to it is used to read it; the board stays
/// well formed.
pub proof fn law_read_after_write(
    board: BoardView,
    x: int,
    y: int,
    read_x: int,
    read_y: int,
    value: Seq<char>,
)
    requires
        board.wf(),
        wrap(read_x, board.width) == wrap(x, board.width),
        wrap(read_y, board.height) == wrap(y, board.height),
    ensures
        board.with_cell(x, y, value).wf(),
        board.with_cell(x, y, value).cell(read_x, read_y) == value,
{
}

/// A write leaves every other cell as it was.
pub proof fn law_write_keeps_other_cells(
    board: BoardView,
    x: int,
    y: int,
    other_x: int,
    other_y: int,
    value: Seq<char>,
)
    requires
        board.wf(),
        wrap(other_x, board.width) != wrap(x, board.width) || wrap(other_y, board.height) != wrap(
            y,
            board.height,
        ),
    ensures
        board.with_cell(x, y, value).cell(other_x, other_y) == board.cell(other_x, other_y),
{
}

/// Coordinates that differ by whole widths and whole heights address the
/// same cell.
pub proof fn law_coordinates_wrap(board: BoardView, x: int, y: int, columns: int, rows: int)
    requires
        board.wf(),
    ensures
        board.storage_col(x + columns * board.width) == board.storage_col(x),
        board.storage_row(y + rows * board.height) == board.storage_row(y),
        board.cell(x + columns * board.width, y + rows * board.height) == board.cell(x, y),
        0 <= board.storage_col(x) < board.width,
        0 <= board.storage_row(y) < board.height,
{
    vstd::arithmetic::div_mod::lemma_mod_multiples_vanish(columns, x, board.width);
    vstd::arithmetic::div_mod::lemma_mod_multiples_vanish(rows, y, board.height);
    assert(board.width * columns + x == x + columns * board.width) by (nonlinear_arith);
    assert(board.height * rows + y == y + rows * board.height) by (nonlinear_arith);
}

/// The cartesian origin is the bottom-left cell: a write to `(0, 0)`
/// lands in the last storage row, in its first column.
pub proof fn law_origin_is_bottom_left(board: BoardView, value: Seq<char>)
    requires
        board.wf(),
    ensures
        board.storage_row(0) == board.height - 1,
        board.storage_col(0) == 0,
        board.with_cell(0, 0, value).cells[board.height - 1][0] == value,
{
}

/// The grid of a new board holds spaces only.
pub proof fn law_blank_grid_is_plain(width: int, height: int, c: char)
    requires
        c != ' ',
    ensures
        free_of(blank_grid(width, height), c),
{
    assert forall|i: int, j: int|
        0 <= i < blank_grid(width, height).len() && 0 <= j < blank_grid(width, height)[i].len() implies count_char(
        #[trigger] blank_grid(width, height)[i][j],
        c,
    ) == 0 by {
        lemma_count_char_absent(blank_cell(), c);
    }
}

/// Every `c` in `s` is the character at offset `at` of an occurrence of
/// `pattern` in `s`. Where `pattern` holds `c` at that offset and nowhere
/// else, `s` then holds `pattern` as often as it holds `c`.
pub open spec fn only_within(s: Seq<char>, c: char, pattern: Seq<char>, at: int) -> bool {
    forall|p: int|
        0 <= p < s.len() && #[trigger] s[p] == c ==> 0 <= p - at && p - at + pattern.len()
            <= s.len() && s.subrange(p - at, p - at + pattern.len()) == pattern
}

proof fn lemma_uncounted_is_absent(s: Seq<char>, c: char)
    requires
        count_char(s, c) == 0,
    ensures
        forall|p: int| 0 <= p < s.len() ==> s[p] != c,
        forall|pattern: Seq<char>, at: int| only_within(s, c, pattern, at),
    decreases s.len(),
{
    if s.len() > 0 {
        lemma_uncounted_is_absent(s.drop_last(), c);
        assert forall|p: int| 0 <= p < s.len() implies s[p] != c by {
            if p < s.len() - 1 {
                assert(s.drop_last()[p] == s[p]);
            }
        }
    }
}

proof fn lemma_only_within_concat(a: Seq<char>, b: Seq<char>, c: char, pattern: Seq<char>, at: int)
    requires
        only_within(a, c, pattern, at),
        only_within(b, c, pattern, at),
    ensures
        only_within(a + b, c, pattern, at),
{
    let s = a + b;
    let n = pattern.len() as int;
    assert forall|p: int| 0 <= p < s.len() && #[trigger] s[p] == c implies 0 <= p - at && p - at + n
        <= s.len() && s.subrange(p - at, p - at + n) == pattern by {
        if p < a.len() {
            assert(a[p] == c);
            assert(s.subrange(p - at, p - at + n) =~= a.subrange(p - at, p - at + n));
        } else {
            let q = p - a.len();
            assert(b[q] == c);
            assert(s.subrange(p - at, p - at + n) =~= b.subrange(q - at, q - at + n));
        }
    }
}

proof fn lemma_only_within_repeated(
    unit: Seq<char>,
    times: nat,
    c: char,
    pattern: Seq<char>,
    at: int,
)
    requires
        only_within(unit, c, pattern, at),
    ensures
        only_within(repeated(unit, times), c, pattern, at),
    decreases times,
{
    if times > 0 {
        lemma_only_within_repeated(unit, (times - 1) as nat, c, pattern, at);
        lemma_only_within_concat(repeated(unit, (times - 1) as nat), unit, c, pattern, at);
    }
}

proof fn lemma_only_within_rows(rows: Seq<Seq<Seq<char>>>, c: char, pattern: Seq<char>, at: int)
    requires
        free_of(rows, c),
        only_within(line_break(), c, pattern, at),
    ensures
        only_within(rows_text(rows), c, pattern, at),
    decreases rows.len(),
{
    if rows.len() >= 1 {
        let last = rows.last();
        assert forall|j: int| 0 <= j < last.len() implies count_char(#[trigger] last[j], c) == 0 by {
            assert(last[j] == rows[rows.len() - 1][j]);
        }
        lemma_row_text_count(last, c);
        lemma_uncounted_is_absent(row_text(last), c);
        if rows.len() == 1 {
            assert(rows[0] == last);
        } else {
            let front = rows.drop_last();
            assert forall|i: int, j: int| 0 <= i < front.len() && 0 <= j < front[i].len() implies count_char(
                #[trigger] front[i][j],
                c,
            ) == 0 by {
                assert(front[i][j] == rows[i][j]);
            }
            lemma_only_within_rows(front, c, pattern, at);
            lemma_only_within_concat(rows_text(front), line_break(), c, pattern, at);
            lemma_only_within_concat(
                rows_text(front) + line_break(),
                row_text(last),
                c,
                pattern,
                at,
            );
        }
    }
}

proof fn lemma_only_within_frame(
    board: BoardView,
    now: Timestamp,
    c: char,
    pattern: Seq<char>,
    at: int,
)
    requires
        free_of(board.cells, c),
        c == '\x1B' || c == '\n',
        only_within(line_break(), c, pattern, at),
        only_within(cursor_up(), c, pattern, at),
    ensures
        only_within(board.frame(now), c, pattern, at),
{
    let fps = board.after_frame(now).fps;
    let prefix = board.redraw_prefix();
    let number = fps_label() + decimal(fps);
    lemma_only_within_repeated(cursor_up(), (board.height + 1) as nat, c, pattern, at);
    lemma_only_within_rows(board.cells, c, pattern, at);
    lemma_fps_line_counts(fps, c);
    lemma_uncounted_is_absent(number, c);
    lemma_only_within_concat(number, line_break(), c, pattern, at);
    lemma_only_within_concat(prefix, board.text(), c, pattern, at);
    lemma_only_within_concat(prefix + board.text(), line_break(), c, pattern, at);
    lemma_only_within_concat(
        prefix + board.text() + line_break(),
        board.after_frame(now).fps_line(),
        c,
        pattern,
        at,
    );
}

/// How many cursor-up sequences a frame holds, where no cell holds an
/// escape character: none in the first frame, `height + 1` in every
/// later one. The sequence holds one escape character, as its second
/// character; every escape character of the frame is the second
/// character of a cursor-up sequence in it; so the frame holds the
/// sequence as often as it holds the escape character.
pub proof fn law_frame_escapes(board: BoardView, now: Timestamp)
    requires
        board.wf(),
        free_of(board.cells, '\x1B'),
    ensures
        count_char(cursor_up(), '\x1B') == 1,
        cursor_up()[1] == '\x1B',
        only_within(board.frame(now), '\x1B', cursor_up(), 1),
        count_char(board.frame(now), '\x1B') == if board.has_drawn_before {
            board.height + 1
        } else {
            0
        },
        board.after_frame(now).has_drawn_before,
        board.after_frame(now).cells == board.cells,
        board.after_frame(now).height == board.height,
{
    let c = '\x1B';
    let fps = board.after_frame(now).fps;
    let prefix = board.redraw_prefix();
    lemma_cursor_up_counts();
    assert(only_within(cursor_up(), c, cursor_up(), 1)) by {
        assert(cursor_up().subrange(0, 5) =~= cursor_up());
    }
    lemma_line_break_counts(c);
    lemma_uncounted_is_absent(line_break(), c);
    lemma_only_within_frame(board, now, c, cursor_up(), 1);
    lemma_line_break_counts(c);
    lemma_rows_text_count(board.cells, c);
    lemma_fps_line_counts(fps, c);
    lemma_count_char_repeated(cursor_up(), (board.height + 1) as nat, c);
    lemma_count_char_absent(Seq::<char>::empty(), c);
    let lines = (board.height + 1) as nat;
    assert((board.cells.len() - 1) * 0 == 0) by (nonlinear_arith);
    assert(lines * 1 == lines) by (nonlinear_arith);
    lemma_count_char_concat(fps_label() + decimal(fps), line_break(), c);
    lemma_count_char_concat(prefix, board.text(), c);
    lemma_count_char_concat(prefix + board.text(), line_break(), c);
    lemma_count_char_concat(
        prefix + board.text() + line_break(),
        board.after_frame(now).fps_line(),
        c,
    );
}

/// Every frame after the first holds `height + 1` escape characters,
/// where no cell holds one: the board has drawn before from its first
/// frame on, whenever that was composed.
pub proof fn law_later_frames_escapes(board: BoardView, first: Timestamp, later: Timestamp)
    requires
        board.wf(),
        free_of(board.cells, '\x1B'),
    ensures
        board.after_frame(first).wf(),
        count_char(board.after_frame(first).frame(later), '\x1B') == board.height + 1,
        only_within(board.after_frame(first).frame(later), '\x1B', cursor_up(), 1),
{
    law_frame_escapes(board.after_frame(first), later);
}

/// How many line breaks a frame holds, where no cell holds a line feed:
/// `height + 1`, one between each two rows of the grid, one after the
/// grid and one after the frame rate. A line break holds one line feed,
/// as its second character; every line feed of the frame is the second
/// character of a line break in it; so the frame holds line breaks as
/// often as it holds line feeds.
pub proof fn law_frame_line_feeds(board: BoardView, now: Timestamp)
    requires
        board.wf(),
        free_of(board.cells, '\n'),
    ensures
        count_char(line_break(), '\n') == 1,
        line_break()[1] == '\n',
        only_within(board.frame(now), '\n', line_break(), 1),
        count_char(board.frame(now), '\n') == board.height + 1,
{
    let c = '\n';
    let fps = board.after_frame(now).fps;
    let prefix = board.redraw_prefix();
    lemma_cursor_up_counts();
    assert(only_within(line_break(), c, line_break(), 1)) by {
        assert(line_break().subrange(0, 2) =~= line_break());
    }
    lemma_uncounted_is_absent(cursor_up(), c);
    lemma_only_within_frame(board, now, c, line_break(), 1);
    lemma_line_break_counts(c);
    lemma_rows_text_count(board.cells, c);
    lemma_fps_line_counts(fps, c);
    lemma_count_char_repeated(cursor_up(), (board.height + 1) as nat, c);
    lemma_count_char_absent(Seq::<char>::empty(), c);
    let lines = (board.height + 1) as nat;
    assert((board.cells.len() - 1) * 1 == board.cells.len() - 1) by (nonlinear_arith);
    assert(lines * 0 == 0) by (nonlinear_arith);
    lemma_count_char_concat(fps_label() + decimal(fps), line_break(), c);
    lemma_count_char_concat(prefix, board.text(), c);
    lemma_count_char_concat(prefix + board.text(), line_break(), c);
    lemma_count_char_concat(
        prefix + board.text() + line_break(),
        board.after_frame(now).fps_line(),
        c,
    );
}

/// A frame composed before the sampling window is over shows the
/// frame rate that the board holds, and ends in that line.
pub proof fn law_fps_line_within_window(board: BoardView, fps: nat, now: Timestamp)
    requires
        !window_elapsed(board.fps_window_start, now),
    ensures
        ({
            let set = BoardView { fps, ..board };
            let line = fps_label() + decimal(fps) + line_break();
            &&& set.after_frame(now).fps == fps
            &&& set.after_frame(now).fps_line() == line
            &&& set.frame(now) == set.redraw_prefix() + set.text() + line_break() + line
            &&& set.frame(now).subrange(set.frame(now).len() - line.len(), set.frame(now).len() as int)
                == line
        }),
{
    let set = BoardView { fps, ..board };
    let line = fps_label() + decimal(fps) + line_break();
    assert(set.frame(now).subrange(set.frame(now).len() - line.len(), set.frame(now).len() as int)
        =~= line);
}

/// A frame composed once the sampling window is over shows the frames
/// counted in that window, and the count starts again at zero.
pub proof fn law_fps_after_window(board: BoardView, now: Timestamp)
    requires
        window_elapsed(board.fps_window_start, now),
    ensures
        board.after_frame(now).fps == board.draw_count,
        board.after_frame(now).draw_count == 0,
        board.after_frame(now).fps_window_start == now,
        board.after_frame(now).fps_line() == fps_label() + decimal(board.draw_count) + line_break(),
{
}

/// Whatever the two random words are, the bounce-start delay is less
/// than a thousand milliseconds.
pub proof fn law_bounce_delay_below_a_second(first: u64, second: u64)
    ensures
        0 <= bounce_delay_millis(first, second) < 1000,
{
    let a = unit_draw(first);
    let b = unit_draw(second);
    assert(a * b < draw_scale() * draw_scale()) by (nonlinear_arith)
        requires
            0 <= a < draw_scale(),
            0 <= b < draw_scale(),
    ;
    assert(draw_scale() * draw_scale() == 0x400_0000_0000_0000_0000_0000_0000);
}

} // verus!
