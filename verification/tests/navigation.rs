use list_picker::nav::{initial_state, Motion, NavigationState};

fn at(selected: usize, page_start: usize) -> NavigationState {
    NavigationState { selected, page_start }
}

#[test]
fn initial_state_without_restore_is_first_item() {
    assert_eq!(initial_state(25, 10, None), at(0, 0));
}

#[test]
fn initial_state_with_restore_aligns_page() {
    assert_eq!(initial_state(25, 10, Some(17)), at(17, 10));
    assert_eq!(initial_state(25, 10, Some(20)), at(20, 20));
    assert_eq!(initial_state(25, 10, Some(9)), at(9, 0));
    assert_eq!(initial_state(25, 1, Some(7)), at(7, 7));
}

#[test]
fn initial_state_ignores_index_outside_list() {
    assert_eq!(initial_state(25, 10, Some(25)), at(0, 0));
    assert_eq!(initial_state(3, 10, Some(usize::MAX)), at(0, 0));
}

#[test]
fn is_valid_tells_states_apart() {
    assert!(at(15, 10).is_valid(25, 10));
    assert!(at(0, 0).is_valid(1, 1));
    assert!(!at(25, 20).is_valid(25, 10));
    assert!(!at(15, 0).is_valid(25, 10));
    assert!(!at(15, 20).is_valid(25, 10));
    assert!(!at(15, 12).is_valid(25, 10));
    assert!(!at(0, 0).is_valid(0, 10));
    assert!(!at(0, 0).is_valid(5, 0));
}

#[test]
fn move_up_within_page() {
    assert_eq!(at(15, 10).move_up(25, 10), at(14, 10));
}

#[test]
fn move_up_crosses_to_previous_page() {
    assert_eq!(at(10, 10).move_up(25, 10), at(9, 0));
    assert_eq!(at(20, 20).move_up(25, 10), at(19, 10));
}

#[test]
fn move_up_at_first_item_is_no_op() {
    assert_eq!(at(0, 0).move_up(25, 10), at(0, 0));
    assert_eq!(at(0, 0).move_left(25, 10), at(0, 0));
}

#[test]
fn move_left_is_move_up() {
    for selected in 0..25 {
        let state = at(selected, selected / 10 * 10);
        assert_eq!(state.move_left(25, 10), state.move_up(25, 10));
    }
}

#[test]
fn move_down_within_page() {
    assert_eq!(at(14, 10).move_down(25, 10), at(15, 10));
}

#[test]
fn move_down_crosses_to_next_page() {
    assert_eq!(at(9, 0).move_down(25, 10), at(10, 10));
    assert_eq!(at(19, 10).move_down(25, 10), at(20, 20));
}

#[test]
fn move_down_at_last_item_is_no_op() {
    assert_eq!(at(24, 20).move_down(25, 10), at(24, 20));
}

#[test]
fn up_then_down_returns_away_from_first_item() {
    for selected in 1..25 {
        let state = at(selected, selected / 10 * 10);
        assert_eq!(state.move_up(25, 10).move_down(25, 10), state);
    }
}

#[test]
fn down_then_up_returns_away_from_last_item() {
    for selected in 0..24 {
        let state = at(selected, selected / 10 * 10);
        assert_eq!(state.move_down(25, 10).move_up(25, 10), state);
    }
}

#[test]
fn page_down_jumps_then_clamps() {
    let first = at(5, 0).page_down(25, 10);
    assert_eq!(first, at(15, 10));
    let second = first.page_down(25, 10);
    assert_eq!(second, at(24, 20));
    assert_eq!(second.page_down(25, 10), at(24, 20));
}

#[test]
fn page_down_that_would_land_on_last_item_clamps_to_it() {
    assert_eq!(at(14, 10).page_down(25, 10), at(24, 20));
    assert_eq!(at(13, 10).page_down(25, 10), at(23, 20));
}

#[test]
fn page_down_within_last_page_goes_to_last_item() {
    assert_eq!(at(21, 20).page_down(25, 10), at(24, 20));
}

#[test]
fn page_down_converges_from_every_start() {
    for selected in 0..25 {
        let mut state = at(selected, selected / 10 * 10);
        for _ in 0..3 {
            state = state.page_down(25, 10);
        }
        assert_eq!(state, at(24, 20));
        assert_eq!(state.page_down(25, 10), at(24, 20));
    }
}

#[test]
fn page_up_jumps_in_lockstep() {
    assert_eq!(at(24, 20).page_up(25, 10), at(14, 10));
    assert_eq!(at(15, 10).page_up(25, 10), at(5, 0));
}

#[test]
fn page_up_clamps_to_first_item() {
    assert_eq!(at(5, 0).page_up(25, 10), at(0, 0));
    assert_eq!(at(10, 10).page_up(25, 10), at(0, 0));
    assert_eq!(at(0, 0).page_up(25, 10), at(0, 0));
}

#[test]
fn single_item_list_never_moves() {
    let only = at(0, 0);
    for motion in [Motion::Up, Motion::Down, Motion::Left, Motion::PageUp, Motion::PageDown] {
        assert_eq!(only.apply(motion, 1, 10), only);
        assert_eq!(only.apply(motion, 1, 1), only);
    }
}

#[test]
fn list_of_exact_multiple_ends_on_full_page() {
    let state = at(5, 0).page_down(20, 10).page_down(20, 10);
    assert_eq!(state, at(19, 10));
    assert_eq!(at(9, 0).move_down(20, 10), at(10, 10));
    assert_eq!(at(19, 10).move_down(20, 10), at(19, 10));
}

#[test]
fn page_size_of_one_pages_item_by_item() {
    assert_eq!(at(3, 3).move_down(5, 1), at(4, 4));
    assert_eq!(at(3, 3).move_up(5, 1), at(2, 2));
    assert_eq!(at(1, 1).page_down(5, 1), at(2, 2));
    assert_eq!(at(3, 3).page_down(5, 1), at(4, 4));
    assert_eq!(at(3, 3).page_up(5, 1), at(2, 2));
    assert_eq!(at(1, 1).page_up(5, 1), at(0, 0));
}

#[test]
fn huge_page_size_does_not_overflow() {
    let state = at(2, 0);
    assert_eq!(state.page_down(5, usize::MAX), at(4, 0));
    assert_eq!(state.page_up(5, usize::MAX), at(0, 0));
    assert_eq!(state.move_down(5, usize::MAX), at(3, 0));
    assert_eq!(state.move_up(5, usize::MAX), at(1, 0));
}

#[test]
fn apply_carries_out_each_motion() {
    let state = at(15, 10);
    assert_eq!(state.apply(Motion::Up, 25, 10), at(14, 10));
    assert_eq!(state.apply(Motion::Left, 25, 10), at(14, 10));
    assert_eq!(state.apply(Motion::Down, 25, 10), at(16, 10));
    assert_eq!(state.apply(Motion::PageUp, 25, 10), at(5, 0));
    assert_eq!(state.apply(Motion::PageDown, 25, 10), at(24, 20));
}

#[test]
fn every_run_of_motions_keeps_the_state_valid() {
    let motions = [Motion::Up, Motion::Down, Motion::Left, Motion::PageUp, Motion::PageDown];
    for len in 1..8usize {
        for page_size in 1..5usize {
            let mut seed: usize = len * 31 + page_size;
            let mut state = initial_state(len, page_size, Some(seed % len));
            assert!(state.is_valid(len, page_size));
            for _ in 0..200 {
                seed = seed.wrapping_mul(1103515245).wrapping_add(12345) % 2147483648;
                state = state.apply(motions[(seed / 65536) % 5], len, page_size);
                assert!(state.is_valid(len, page_size));
            }
        }
    }
}
