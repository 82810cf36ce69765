use less::cmdline::{cmd_lshift, cmd_repaint, cmd_rshift, left_needs_rshift, right_needs_lshift};
use less::prompt::curr_byte;

#[test]
fn shift_left_by_half_the_room() {
    let w = vec![1u32; 100];
    // 80 columns with a 2-column prompt: half the room is 39 columns.
    assert_eq!(cmd_lshift(&w, 0, 80, 2), 39);
    assert_eq!(cmd_lshift(&w, 90, 80, 2), 100);
    let wide = vec![2u32; 100];
    assert_eq!(cmd_lshift(&wide, 0, 80, 2), 20);
}

#[test]
fn shift_left_skips_composing_characters() {
    let mut w = vec![1u32; 10];
    w[4] = 0;
    w[5] = 0;
    assert_eq!(cmd_lshift(&w, 0, 10, 2), 6);
}

#[test]
fn shift_right_by_half_the_room() {
    let w = vec![1u32; 100];
    assert_eq!(cmd_rshift(&w, 60, 80, 2), 21);
    assert_eq!(cmd_rshift(&w, 10, 80, 2), 0);
    assert_eq!(cmd_rshift(&w, 10, 2, 2), 10);
}

#[test]
fn repaint_stops_at_the_edge() {
    let w = vec![1u32; 100];
    assert_eq!(cmd_repaint(&w, 0, 2, 80), (77, 79));
    let short = vec![1u32, 2, 0, 1];
    assert_eq!(cmd_repaint(&short, 0, 0, 80), (4, 4));
    let edge = vec![1u32, 1, 0, 1];
    assert_eq!(cmd_repaint(&edge, 0, 77, 80), (3, 79));
}

#[test]
fn cursor_moves_that_scroll() {
    assert!(right_needs_lshift(78, 2, 80, false));
    assert!(right_needs_lshift(78, 1, 80, true));
    assert!(!right_needs_lshift(78, 1, 80, false));
    assert!(left_needs_rshift(2, 1, 2));
    assert!(!left_needs_rshift(3, 1, 2));
}

#[test]
fn prompt_byte_offsets() {
    let pos = vec![-1i64, -1, 500, 600];
    assert_eq!(curr_byte(&pos, 0, 25, 9999), 500);
    assert_eq!(curr_byte(&pos, 3, 25, 9999), 600);
    let empty = vec![-1i64, -1, -1];
    assert_eq!(curr_byte(&empty, 0, 25, 9999), 9999);
    assert_eq!(curr_byte(&pos, 0, 2, 9999), 9999);
}
