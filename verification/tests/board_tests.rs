use falling_blocks::board::{Board, BoardError};
use falling_blocks::clock::Timestamp;
use regex::Regex;

fn at(secs: i64, nanos: i32) -> Timestamp {
    Timestamp { secs, nanos }
}

fn held(board: &Board, row: usize, col: usize) -> String {
    board.storage_cell(row, col).unwrap().clone()
}

fn storage_row(board: &Board, row: usize) -> Vec<String> {
    (0..board.width() as usize).map(|col| held(board, row, col)).collect()
}

#[test]
fn test_board_create() {
    let board = Board::new(4, 3).unwrap();
    assert_eq!(board.width(), 4);
    assert_eq!(board.height(), 3);
}

#[test]
fn test_board_set() {
    let mut board = Board::new(4, 3).unwrap();

    board.set_cell(0, 0, String::from("0"));
    board.set_cell(1, 0, String::from("1"));

    assert_eq!(&held(&board, 2, 0), "0");
    assert_eq!(&held(&board, 2, 1), "1");
}

#[test]
fn test_board_frame_upcode() {
    let tst_height = 3;

    let mut board = Board::new(4, tst_height).unwrap();
    board.set_has_drawn_before(true);

    {
        let frame = board.get_frame();
        let v: Vec<&str> = frame.split("\r\x1B[1F").collect();
        println!("{} ?= {}", v.len(), tst_height);
        assert!(v.len() - 1 == (tst_height + 1) as usize);
    }
}

#[test]
fn test_board_frame_newlines() {
    let tst_height = 3;
    let mut board = Board::new(4, tst_height).unwrap();
    let re = Regex::new(r"\r\n").unwrap();
    {
        let frame = board.get_frame();
        let nl_count = re.captures_iter(&frame).count();
        assert!(nl_count == (tst_height + 1) as usize);
    }
}

#[test]
fn test_board_frame_fps() {
    let tst_fps = 25;
    let mut board = Board::new(4, 3).unwrap();
    board.set_fps(tst_fps);

    let re = Regex::new(r"FPS: (\d+)").unwrap();

    let frame = board.get_frame();

    let caps = re.captures(&frame).unwrap();
    let correct_str = &format!("{}", tst_fps)[..];
    assert_eq!(caps.get(1).map(|m| m.as_str()), Some(correct_str));
}

#[test]
fn new_board_starts_blank_and_idle() {
    let board = Board::new_at(4, 3, at(100, 5)).unwrap();
    assert!(!board.has_drawn_before());
    assert_eq!(board.draw_count(), 0);
    assert_eq!(board.fps(), 0);
    assert_eq!(board.fps_window_start(), at(100, 5));
    for row in 0..3 {
        assert_eq!(storage_row(&board, row), vec![" ", " ", " ", " "]);
    }
    assert!(board.storage_cell(3, 0).is_none());
    assert!(board.storage_cell(0, 4).is_none());
}

#[test]
fn new_board_reads_the_clock() {
    let board = Board::new(2, 2).unwrap();
    let start = board.fps_window_start();
    assert!(0 <= start.nanos && start.nanos < 1_000_000_000);
    assert!(start.secs > 0);
}

#[test]
fn dimensions_that_are_not_positive_are_rejected() {
    assert!(matches!(Board::new(0, 3), Err(BoardError::WidthNotPositive)));
    assert!(matches!(Board::new(-4, 3), Err(BoardError::WidthNotPositive)));
    assert!(matches!(Board::new(0, 0), Err(BoardError::WidthNotPositive)));
    assert!(matches!(Board::new(4, 0), Err(BoardError::HeightNotPositive)));
    assert!(matches!(Board::new(4, -1), Err(BoardError::HeightNotPositive)));
    assert!(matches!(Board::new_at(i32::MIN, 1, at(0, 0)), Err(BoardError::WidthNotPositive)));
    assert!(Board::new(1, 1).is_ok());
}

#[test]
fn blank_text_has_height_lines_of_width_spaces() {
    let board = Board::new(4, 3).unwrap();
    let text = board.board_str();
    assert_eq!(text, "    \r\n    \r\n    ");
    let lines: Vec<&str> = text.split("\r\n").collect();
    assert_eq!(lines.len(), 3);
    for line in lines {
        assert_eq!(line.chars().count(), 4);
    }
    assert_eq!(Board::new(1, 1).unwrap().board_str(), " ");
    assert_eq!(Board::new(3, 1).unwrap().board_str(), "   ");
    assert_eq!(Board::new(1, 2).unwrap().board_str(), " \r\n ");
}

#[test]
fn bottom_row_after_two_writes() {
    let mut board = Board::new(4, 3).unwrap();
    board.set_cell(0, 0, String::from("0"));
    board.set_cell(1, 0, String::from("1"));
    assert_eq!(storage_row(&board, 2), vec!["0", "1", " ", " "]);
    assert_eq!(storage_row(&board, 0), vec![" ", " ", " ", " "]);
    assert_eq!(storage_row(&board, 1), vec![" ", " ", " ", " "]);
    assert_eq!(board.board_str(), "    \r\n    \r\n01  ");
}

#[test]
fn origin_is_bottom_left() {
    for height in 1..6 {
        let mut board = Board::new(3, height).unwrap();
        board.set_cell(0, 0, String::from("X"));
        assert_eq!(held(&board, (height - 1) as usize, 0), "X");
    }
}

#[test]
fn y_grows_upward() {
    let mut board = Board::new(2, 3).unwrap();
    board.set_cell(1, 2, String::from("T"));
    board.set_cell(0, 1, String::from("M"));
    assert_eq!(held(&board, 0, 1), "T");
    assert_eq!(held(&board, 1, 0), "M");
    assert_eq!(board.board_str(), " T\r\nM \r\n  ");
}

#[test]
fn read_returns_what_was_written() {
    let mut board = Board::new(4, 3).unwrap();
    for (x, y) in [(0, 0), (3, 2), (-1, -1), (4, 3), (-5, 7), (i32::MAX, i32::MIN), (i32::MIN, i32::MAX)] {
        let value = format!("{}", (x as i64 + y as i64).rem_euclid(10));
        board.set_cell(x, y, value.clone());
        assert_eq!(board.cell(x, y), &value);
        assert_eq!(board.cell(x.rem_euclid(4), y.rem_euclid(3)), &value);
    }
}

#[test]
fn coordinates_wrap_to_the_same_cell() {
    let mut board = Board::new(4, 3).unwrap();
    board.set_cell(-1, -1, String::from("W"));
    assert_eq!(board.cell(3, 2), "W");
    assert_eq!(board.cell(7, 5), "W");
    assert_eq!(board.cell(-5, -4), "W");
    assert_eq!(held(&board, 0, 3), "W");
    board.set_cell(5, 4, String::from("V"));
    assert_eq!(board.cell(1, 1), "V");
    assert_eq!(held(&board, 1, 1), "V");
    assert_eq!(board.cell(3, 2), "W");
}

#[test]
fn write_replaces_and_keeps_long_values() {
    let mut board = Board::new(2, 1).unwrap();
    board.set_cell(0, 0, String::from("ab"));
    assert_eq!(board.cell(0, 0), "ab");
    board.set_cell(0, 0, String::from("c"));
    assert_eq!(board.cell(0, 0), "c");
    board.set_cell(1, 0, String::from("xyz"));
    assert_eq!(board.board_str(), "cxyz");
}

#[test]
fn first_frame_has_no_cursor_up() {
    let mut board = Board::new_at(4, 3, at(10, 0)).unwrap();
    let frame = board.get_frame_at(at(10, 500_000_000));
    assert_eq!(frame, "    \r\n    \r\n    \r\nFPS: 0\r\n");
    assert_eq!(frame.matches("\r\x1B[1F").count(), 0);
    assert_eq!(frame.matches('\x1B').count(), 0);
    assert!(board.has_drawn_before());
}

#[test]
fn later_frames_start_with_cursor_ups() {
    let mut board = Board::new_at(2, 2, at(10, 0)).unwrap();
    board.set_cell(0, 1, String::from("#"));
    let first = board.get_frame_at(at(10, 1));
    assert_eq!(first, "# \r\n  \r\nFPS: 0\r\n");
    for _ in 0..3 {
        let frame = board.get_frame_at(at(10, 2));
        assert_eq!(frame, "\r\x1B[1F\r\x1B[1F\r\x1B[1F# \r\n  \r\nFPS: 0\r\n");
        assert_eq!(frame.matches("\r\x1B[1F").count(), 3);
    }
}

#[test]
fn every_frame_has_height_plus_one_line_breaks() {
    for height in 1..5 {
        let mut board = Board::new(3, height).unwrap();
        for _ in 0..3 {
            let frame = board.get_frame();
            assert_eq!(frame.matches("\r\n").count(), (height + 1) as usize);
            assert_eq!(frame.matches('\n').count(), (height + 1) as usize);
        }
    }
}

#[test]
fn fps_line_shows_the_rate_that_was_set() {
    let mut board = Board::new_at(1, 1, at(50, 0)).unwrap();
    board.set_fps(25);
    board.set_draw_count(7);
    let frame = board.get_frame_at(at(50, 999_999_999));
    assert_eq!(frame, " \r\nFPS: 25\r\n");
    assert_eq!(board.fps(), 25);
    assert_eq!(board.draw_count(), 7);
    assert_eq!(board.fps_window_start(), at(50, 0));
    board.set_fps(18_446_744_073_709_551_615);
    let frame = board.get_frame_at(at(50, 999_999_999));
    assert!(frame.ends_with("FPS: 18446744073709551615\r\n"));
    board.set_fps(1200);
    assert!(board.get_frame_at(at(49, 0)).ends_with("\r\nFPS: 1200\r\n"));
}

#[test]
fn fps_is_sampled_once_the_window_is_over() {
    let mut board = Board::new_at(1, 1, at(50, 250)).unwrap();
    for _ in 0..42 {
        board.record_frame_drawn();
    }
    assert_eq!(board.draw_count(), 42);
    let early = board.get_frame_at(at(51, 249));
    assert_eq!(early, " \r\nFPS: 0\r\n");
    assert_eq!(board.draw_count(), 42);
    let frame = board.get_frame_at(at(51, 250));
    assert_eq!(frame, "\r\x1B[1F\r\x1B[1F \r\nFPS: 42\r\n");
    assert_eq!(board.fps(), 42);
    assert_eq!(board.draw_count(), 0);
    assert_eq!(board.fps_window_start(), at(51, 250));
    let next = board.get_frame_at(at(52, 0));
    assert!(next.ends_with("FPS: 42\r\n"));
    let after = board.get_frame_at(at(1_000, 0));
    assert!(after.ends_with("FPS: 0\r\n"));
    assert_eq!(board.fps_window_start(), at(1_000, 0));
}

#[test]
fn frame_count_stops_at_its_largest_value() {
    let mut board = Board::new(1, 1).unwrap();
    board.record_frame_drawn();
    assert_eq!(board.draw_count(), 1);
    board.set_draw_count(u64::MAX - 1);
    board.record_frame_drawn();
    assert_eq!(board.draw_count(), u64::MAX);
    board.record_frame_drawn();
    assert_eq!(board.draw_count(), u64::MAX);
}
