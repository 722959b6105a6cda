use falling_blocks::block::{bounce_delay_from_draws, Block};
use falling_blocks::clock::{second_elapsed, Timestamp};
use falling_blocks::coords::modulus;
use falling_blocks::text::{push_cursor_up, push_decimal, push_fps_label, push_line_break};

#[test]
fn modulus_is_never_negative() {
    assert_eq!(modulus(0, 4), 0);
    assert_eq!(modulus(3, 4), 3);
    assert_eq!(modulus(4, 4), 0);
    assert_eq!(modulus(9, 4), 1);
    assert_eq!(modulus(-1, 4), 3);
    assert_eq!(modulus(-4, 4), 0);
    assert_eq!(modulus(-5, 4), 3);
    assert_eq!(modulus(-7, 3), 2);
    assert_eq!(modulus(5, 1), 0);
    assert_eq!(modulus(i32::MIN, 3), 1);
    assert_eq!(modulus(i32::MAX, 3), 1);
    assert_eq!(modulus(i32::MIN, i32::MAX), i32::MAX - 1);
    assert_eq!(modulus(-1, i32::MAX), i32::MAX - 1);
}

#[test]
fn modulus_agrees_with_rem_euclid() {
    for value in -50..50 {
        for base in 1..9 {
            assert_eq!(modulus(value, base), value.rem_euclid(base));
        }
    }
}

#[test]
fn decimal_digits_are_appended() {
    for n in [0u64, 7, 9, 10, 25, 99, 100, 1_234_567_890, u64::MAX] {
        let mut out = String::from("n=");
        push_decimal(&mut out, n);
        assert_eq!(out, format!("n={}", n));
    }
}

#[test]
fn control_texts_are_appended() {
    let mut out = String::from("a");
    push_line_break(&mut out);
    push_cursor_up(&mut out);
    push_fps_label(&mut out);
    assert_eq!(out, "a\r\n\r\x1B[1FFPS: ");
}

#[test]
fn window_is_over_after_one_second() {
    let at = |secs: i64, nanos: i32| Timestamp { secs, nanos };
    assert!(!second_elapsed(at(5, 0), at(5, 0)));
    assert!(!second_elapsed(at(5, 0), at(5, 999_999_999)));
    assert!(second_elapsed(at(5, 0), at(6, 0)));
    assert!(!second_elapsed(at(5, 1), at(6, 0)));
    assert!(second_elapsed(at(5, 999_999_999), at(6, 999_999_999)));
    assert!(second_elapsed(at(-2, 800_000_000), at(0, 0)));
    assert!(!second_elapsed(at(6, 0), at(5, 0)));
    assert!(second_elapsed(at(i64::MIN, 0), at(i64::MAX, 0)));
    assert!(!second_elapsed(at(i64::MAX, 0), at(i64::MIN, 0)));
}

#[test]
fn bounce_delay_is_the_scaled_product_of_the_draws() {
    assert_eq!(bounce_delay_from_draws(0, 0), 0);
    assert_eq!(bounce_delay_from_draws(0, u64::MAX), 0);
    assert_eq!(bounce_delay_from_draws(u64::MAX, u64::MAX), 999);
    assert_eq!(bounce_delay_from_draws(1 << 63, 1 << 63), 250);
    assert_eq!(bounce_delay_from_draws(1 << 63, u64::MAX), 499);
    assert_eq!(bounce_delay_from_draws(1 << 62, 1 << 61), 31);
    assert_eq!(bounce_delay_from_draws(2047, u64::MAX), 0);
    assert_eq!(bounce_delay_from_draws(3 << 62, 1 << 63), 375);
}

#[test]
fn spawned_block_keeps_its_parameters() {
    let now = Timestamp { secs: 12, nanos: 34 };
    let block = Block::spawn_at(now, 1 << 63, 1 << 63, 1.5f64, -2.25f64, "red", 9.5f64);
    assert_eq!(block.creation_time(), now);
    assert_eq!(block.bounce_start_delay(), 250);
    assert_eq!(*block.initial_x_velocity(), 1.5);
    assert_eq!(*block.initial_y_velocity(), -2.25);
    assert_eq!(block.color(), "red");
    assert_eq!(*block.gravity(), 9.5);
}

#[test]
fn every_new_block_waits_less_than_a_second() {
    for _ in 0..200 {
        let block = Block::new(0.5f64, 3.0f64, "blue", 1.0f64);
        assert!(block.bounce_start_delay() < 1000);
        assert_eq!(block.color(), "blue");
        assert_eq!(*block.initial_x_velocity(), 0.5);
        assert_eq!(*block.initial_y_velocity(), 3.0);
        assert_eq!(*block.gravity(), 1.0);
        let at = block.creation_time();
        assert!(0 <= at.nanos && at.nanos < 1_000_000_000);
    }
}

#[test]
fn new_blocks_draw_different_delays() {
    let mut seen = std::collections::BTreeSet::new();
    for _ in 0..200 {
        seen.insert(Block::new(0i32, 0i32, "green", 1i32).bounce_start_delay());
    }
    assert!(seen.len() > 1);
}
