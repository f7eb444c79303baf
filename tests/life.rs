use life_grid::{cell_origin, Key, State, CELL_SIZE, GRID_HEIGHT, GRID_WIDTH};

fn empty_board() -> State {
    let mut s = State::new();
    s.clear();
    s
}

fn board_with(cells: &[(usize, usize)]) -> State {
    let mut s = empty_board();
    for &(x, y) in cells {
        s.toggle(x, y);
    }
    s
}

fn live_cells(s: &State) -> Vec<(usize, usize)> {
    let mut out = Vec::new();
    for x in 0..s.width() {
        for y in 0..s.height() {
            if s.is_alive(x, y) {
                out.push((x, y));
            }
        }
    }
    out
}

#[test]
fn new_board_has_fixed_size_and_defaults() {
    let s = State::new();
    assert_eq!(s.width(), 40);
    assert_eq!(s.height(), 40);
    assert_eq!(GRID_WIDTH, 40);
    assert_eq!(GRID_HEIGHT, 40);
    assert_eq!(s.rate(), 1);
    assert!(s.is_running());
}

#[test]
fn corner_neighbors_wrap_around() {
    let triples = [
        [(39, 39), (0, 39), (1, 39)],
        [(39, 0), (1, 0), (39, 1)],
        [(0, 1), (1, 1), (39, 39)],
    ];
    for t in triples.iter() {
        let mut s = board_with(t);
        assert!(!s.is_alive(0, 0));
        s.step();
        assert!(s.is_alive(0, 0));
    }
}

#[test]
fn corner_with_four_wrapped_neighbors_dies() {
    let mut s = board_with(&[(0, 0), (39, 39), (39, 0), (0, 39), (1, 1)]);
    s.step();
    assert!(!s.is_alive(0, 0));
}

#[test]
fn lone_cell_dies() {
    let mut s = board_with(&[(5, 7)]);
    s.step();
    assert!(live_cells(&s).is_empty());
}

#[test]
fn block_is_still_life() {
    let block = vec![(10, 10), (10, 11), (11, 10), (11, 11)];
    let mut s = board_with(&block);
    s.step();
    assert_eq!(live_cells(&s), block);
}

#[test]
fn blinker_has_period_two() {
    let mut s = board_with(&[(1, 2), (2, 2), (3, 2)]);
    s.step();
    assert_eq!(live_cells(&s), vec![(2, 1), (2, 2), (2, 3)]);
    s.step();
    assert_eq!(live_cells(&s), vec![(1, 2), (2, 2), (3, 2)]);
}

#[test]
fn step_keeps_rate_and_flag() {
    let mut s = board_with(&[(1, 2), (2, 2), (3, 2)]);
    s.adjust_rate(4);
    s.set_running(false);
    s.step();
    assert_eq!(s.rate(), 5);
    assert!(!s.is_running());
}

#[test]
fn toggle_twice_restores_cell() {
    let mut s = State::new();
    let before = s.is_alive(3, 4);
    s.toggle(3, 4);
    assert_eq!(s.is_alive(3, 4), !before);
    s.toggle(3, 4);
    assert_eq!(s.is_alive(3, 4), before);
}

#[test]
fn toggle_off_board_is_ignored() {
    let mut s = board_with(&[(0, 0)]);
    s.toggle(40, 0);
    s.toggle(0, 40);
    s.toggle(usize::MAX, usize::MAX);
    assert_eq!(live_cells(&s), vec![(0, 0)]);
}

#[test]
fn clear_kills_all_and_keeps_rate_and_flag() {
    let mut s = State::new();
    s.adjust_rate(2);
    s.toggle_running();
    s.clear();
    assert!(live_cells(&s).is_empty());
    assert_eq!(s.rate(), 3);
    assert!(!s.is_running());
}

#[test]
fn rate_never_below_one() {
    let mut s = State::new();
    assert_eq!(s.rate(), 1);
    for _ in 0..5 {
        s.adjust_rate(-1);
        assert_eq!(s.rate(), 1);
    }
    s.adjust_rate(i64::MIN);
    assert_eq!(s.rate(), 1);
    s.adjust_rate(i64::MAX);
    assert_eq!(s.rate(), u32::MAX);
    s.adjust_rate(-10);
    assert_eq!(s.rate(), u32::MAX - 10);
}

#[test]
fn running_flag_toggles_and_sets() {
    let mut s = State::new();
    s.toggle_running();
    assert!(!s.is_running());
    s.toggle_running();
    assert!(s.is_running());
    s.set_running(false);
    assert!(!s.is_running());
    s.set_running(true);
    assert!(s.is_running());
}

#[test]
fn tick_steps_only_when_running() {
    let mut s = board_with(&[(1, 2), (2, 2), (3, 2)]);
    s.set_running(false);
    assert!(!s.tick());
    assert_eq!(live_cells(&s), vec![(1, 2), (2, 2), (3, 2)]);
    s.set_running(true);
    assert!(s.tick());
    assert_eq!(live_cells(&s), vec![(2, 1), (2, 2), (2, 3)]);
}

#[test]
fn keys_pause_speed_and_reset() {
    let mut s = board_with(&[(4, 4)]);
    s.key_down_event(Key::Pause, false);
    assert!(!s.is_running());
    s.key_down_event(Key::Pause, true);
    assert!(!s.is_running());
    s.key_down_event(Key::Faster, false);
    s.key_down_event(Key::Faster, false);
    assert_eq!(s.rate(), 3);
    s.key_down_event(Key::Faster, true);
    assert_eq!(s.rate(), 3);
    s.key_down_event(Key::Slower, false);
    assert_eq!(s.rate(), 2);
    s.key_down_event(Key::Slower, false);
    s.key_down_event(Key::Slower, false);
    assert_eq!(s.rate(), 1);
    s.key_down_event(Key::Other, false);
    assert_eq!(live_cells(&s), vec![(4, 4)]);
    s.key_down_event(Key::Reset, true);
    assert_eq!(live_cells(&s), vec![(4, 4)]);
    s.key_down_event(Key::Reset, false);
    assert!(live_cells(&s).is_empty());
    assert_eq!(s.rate(), 1);
    assert!(!s.is_running());
}

#[test]
fn click_toggles_cell_under_pointer() {
    let mut s = empty_board();
    s.mouse_button_down_event(45, 19);
    assert_eq!(live_cells(&s), vec![(2, 0)]);
    s.mouse_button_down_event(59, 0);
    assert!(live_cells(&s).is_empty());
    s.mouse_button_down_event(799, 799);
    assert_eq!(live_cells(&s), vec![(39, 39)]);
}

#[test]
fn click_off_board_is_ignored() {
    let mut s = empty_board();
    s.mouse_button_down_event(800, 10);
    s.mouse_button_down_event(10, 800);
    s.mouse_button_down_event(u64::MAX, u64::MAX);
    assert!(live_cells(&s).is_empty());
}

#[test]
fn cell_origin_in_pixels() {
    assert_eq!(CELL_SIZE, 20);
    assert_eq!(cell_origin(0, 0), (0, 0));
    assert_eq!(cell_origin(3, 7), (60, 140));
    assert_eq!(cell_origin(39, 39), (780, 780));
}
