use list_picker::frame::{
    count_pages, render_frame, view_mode_for, Line, RenderFrame, ViewMode, CHOSEN_MARK, HEADER,
    PAGE_LABEL, PLAIN_MARK,
};
use list_picker::nav::{initial_state, Motion, NavigationState};

fn strings(items: &[&str]) -> Vec<String> {
    items.iter().map(|s| s.to_string()).collect()
}

fn numbered(count: usize) -> Vec<String> {
    (1..=count).map(|i| format!("item {}", i)).collect()
}

fn plain(text: &str) -> Line {
    Line { text: text.to_string(), highlighted: false }
}

fn chosen(text: &str) -> Line {
    Line { text: text.to_string(), highlighted: true }
}

const HEADER_TEXT: &str = "Navigate: ↑ ↓ pageUp pageDown; Choose: space →> ";

#[test]
fn the_fixed_texts_are_as_shown() {
    assert_eq!(HEADER, HEADER_TEXT);
    assert_eq!(CHOSEN_MARK, ">>> ");
    assert_eq!(PLAIN_MARK, "    ");
    assert_eq!(PAGE_LABEL, "page ");
}

#[test]
fn view_mode_for_all_is_full() {
    assert_eq!(view_mode_for("all"), ViewMode::Full);
}

#[test]
fn view_mode_for_other_names_is_minimal() {
    assert_eq!(view_mode_for("minimal"), ViewMode::Minimal);
    assert_eq!(view_mode_for(""), ViewMode::Minimal);
    assert_eq!(view_mode_for("All"), ViewMode::Minimal);
    assert_eq!(view_mode_for("all "), ViewMode::Minimal);
    assert_eq!(view_mode_for("al"), ViewMode::Minimal);
    assert_eq!(view_mode_for("alx"), ViewMode::Minimal);
}

#[test]
fn count_pages_rounds_up() {
    assert_eq!(count_pages(3, 10), 1);
    assert_eq!(count_pages(25, 10), 3);
    assert_eq!(count_pages(20, 10), 2);
    assert_eq!(count_pages(21, 10), 3);
    assert_eq!(count_pages(1, 1), 1);
    assert_eq!(count_pages(0, 10), 0);
    assert_eq!(count_pages(7, 1), 7);
    assert_eq!(count_pages(usize::MAX, usize::MAX), 1);
    assert_eq!(count_pages(usize::MAX, 1), usize::MAX);
}

#[test]
fn single_page_in_full_view_has_header_and_no_footer() {
    let items = strings(&["a", "b", "c"]);
    assert_eq!(count_pages(items.len(), 10), 1);
    let frame = render_frame(&items, initial_state(3, 10, None), 10, ViewMode::Full);
    let mut lines =
        vec![plain(HEADER_TEXT), plain(""), chosen(">>> a"), plain("    b"), plain("    c")];
    for _ in 0..7 {
        lines.push(plain(""));
    }
    assert_eq!(frame, RenderFrame { lines, rewind: 12, highlight_row: 2 });
}

#[test]
fn several_pages_in_full_view_have_a_footer() {
    let items = numbered(25);
    let state = NavigationState { selected: 15, page_start: 10 };
    let frame = render_frame(&items, state, 10, ViewMode::Full);
    assert_eq!(frame.lines.len(), 14);
    assert_eq!(frame.rewind, 14);
    assert_eq!(frame.highlight_row, 7);
    assert_eq!(frame.lines[0], plain(HEADER_TEXT));
    assert_eq!(frame.lines[1], plain(""));
    for row in 0..10 {
        let text = format!("item {}", 11 + row);
        if row == 5 {
            assert_eq!(frame.lines[2 + row], chosen(&format!(">>> {}", text)));
        } else {
            assert_eq!(frame.lines[2 + row], plain(&format!("    {}", text)));
        }
    }
    assert_eq!(frame.lines[12], plain(""));
    assert_eq!(frame.lines[13], plain("page 2/3"));
}

#[test]
fn short_last_page_is_padded_to_page_size() {
    let items = numbered(25);
    let state = NavigationState { selected: 24, page_start: 20 };
    let frame = render_frame(&items, state, 10, ViewMode::Full);
    assert_eq!(frame.lines.len(), 14);
    assert_eq!(frame.lines[2], plain("    item 21"));
    assert_eq!(frame.lines[6], chosen(">>> item 25"));
    for row in 5..10 {
        assert_eq!(frame.lines[2 + row], plain(""));
    }
    assert_eq!(frame.lines[13], plain("page 3/3"));
    assert_eq!(frame.highlight_row, 6);
}

#[test]
fn full_last_page_needs_no_padding() {
    let items = numbered(20);
    let state = NavigationState { selected: 19, page_start: 10 };
    let frame = render_frame(&items, state, 10, ViewMode::Full);
    assert_eq!(frame.lines.len(), 14);
    for row in 0..10 {
        assert!(!frame.lines[2 + row].text.is_empty());
    }
    assert_eq!(frame.lines[11], chosen(">>> item 20"));
    assert_eq!(frame.lines[13], plain("page 2/2"));
}

#[test]
fn minimal_view_shows_the_rows_alone() {
    let items = numbered(25);
    let state = NavigationState { selected: 3, page_start: 0 };
    let frame = render_frame(&items, state, 10, ViewMode::Minimal);
    assert_eq!(frame.lines.len(), 10);
    assert_eq!(frame.rewind, 10);
    assert_eq!(frame.highlight_row, 3);
    assert_eq!(frame.lines[0], plain("    item 1"));
    assert_eq!(frame.lines[3], chosen(">>> item 4"));
    assert_eq!(frame.lines[9], plain("    item 10"));
}

#[test]
fn minimal_view_pads_too() {
    let items = strings(&["a", "b"]);
    let state = NavigationState { selected: 1, page_start: 0 };
    let frame = render_frame(&items, state, 4, ViewMode::Minimal);
    assert_eq!(
        frame,
        RenderFrame {
            lines: vec![plain("    a"), chosen(">>> b"), plain(""), plain("")],
            rewind: 4,
            highlight_row: 1,
        }
    );
}

#[test]
fn footer_counts_pages_beyond_nine() {
    let items = numbered(101);
    let state = NavigationState { selected: 100, page_start: 100 };
    let frame = render_frame(&items, state, 10, ViewMode::Full);
    assert_eq!(frame.lines[13], plain("page 11/11"));
    assert_eq!(frame.lines[2], chosen(">>> item 101"));
}

#[test]
fn rendering_twice_gives_the_same_frame() {
    let items = numbered(25);
    for mode in [ViewMode::Full, ViewMode::Minimal] {
        for selected in 0..25 {
            let state = initial_state(25, 10, Some(selected));
            let first = render_frame(&items, state, 10, mode);
            let second = render_frame(&items, state, 10, mode);
            assert_eq!(first, second);
        }
    }
}

#[test]
fn frame_height_is_the_same_on_every_page() {
    let motions = [Motion::Down, Motion::PageDown, Motion::Up, Motion::PageUp, Motion::Left];
    for (mode, height) in [(ViewMode::Full, 8), (ViewMode::Minimal, 4)] {
        let items = numbered(11);
        let mut state = initial_state(11, 4, None);
        for step in 0..60 {
            let frame = render_frame(&items, state, 4, mode);
            assert_eq!(frame.lines.len(), height);
            assert_eq!(frame.rewind, height);
            let highlighted: Vec<usize> =
                (0..frame.lines.len()).filter(|&i| frame.lines[i].highlighted).collect();
            assert_eq!(highlighted, vec![frame.highlight_row]);
            assert_eq!(
                frame.lines[frame.highlight_row].text,
                format!(">>> {}", items[state.selected])
            );
            state = state.apply(motions[(step * 7 + step / 3) % 5], 11, 4);
        }
    }
}
