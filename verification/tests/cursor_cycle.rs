use lattice::cursor::{apply_delta, cycle_wrap, move_cursor};

#[test]
fn apply_delta_clamps_both_ends() {
    assert_eq!(apply_delta(3, 2, 10), 5);
    assert_eq!(apply_delta(3, -5, 10), 0);
    assert_eq!(apply_delta(9, 5, 10), 10);
    assert_eq!(apply_delta(usize::MAX, isize::MAX, usize::MAX), usize::MAX);
}

#[test]
fn move_cursor_stays_in_list() {
    let mut c = 2;
    move_cursor(&mut c, 1, 3);
    assert_eq!(c, 2);
    move_cursor(&mut c, -1, 3);
    assert_eq!(c, 1);
    move_cursor(&mut c, 7, 0);
    assert_eq!(c, 0);
}

#[test]
fn cycle_wrap_wraps_both_ways() {
    assert_eq!(cycle_wrap(5, 4, 1), 0);
    assert_eq!(cycle_wrap(5, 0, -1), 4);
    assert_eq!(cycle_wrap(5, 2, 13), 0);
    assert_eq!(cycle_wrap(5, 2, -13), 4);
    assert_eq!(cycle_wrap(0, 7, 1), 7);
    assert_eq!(cycle_wrap(3, 1, isize::MIN), (1 + 3 - ((isize::MIN as i128).unsigned_abs() % 3) as usize) % 3);
}
