use term_slots::color::Color;
use term_slots::rich_text::Attributes;
use term_slots::screen::{diff_buffers, Screen, ScreenBuffer, TerminalCell};

fn cell(ch: char) -> TerminalCell {
    TerminalCell {
        ch,
        fg: Color::white(),
        bg: Color::black(),
        attributes: Attributes::empty(),
    }
}

#[test]
fn identical_buffers_diff_to_nothing() {
    let cells: Vec<TerminalCell> = "hello world!".chars().map(cell).collect();
    let a = ScreenBuffer(cells.clone());
    let b = ScreenBuffer(cells);
    let mut diffs = Vec::new();
    diff_buffers(&mut diffs, &a, &b, 4);
    assert!(diffs.is_empty());
}

#[test]
fn single_changed_cell_is_reported_once_with_new_value() {
    let old_cells: Vec<TerminalCell> = "abcdef".chars().map(cell).collect();
    let mut new_cells = old_cells.clone();
    new_cells[4] = cell('X');
    let current = ScreenBuffer(new_cells);
    let old = ScreenBuffer(old_cells);
    let mut diffs = Vec::new();
    diff_buffers(&mut diffs, &current, &old, 3);
    // Linear index 4 on a 3-column grid is column 1 of row 1.
    assert_eq!(diffs, vec![(1u16, 1u16, cell('X'))]);
}

#[test]
fn every_changed_cell_appears_exactly_once_in_row_major_order() {
    let old_cells: Vec<TerminalCell> = "abcdef".chars().map(cell).collect();
    let new_cells: Vec<TerminalCell> = "aXcYeZ".chars().map(cell).collect();
    let current = ScreenBuffer(new_cells);
    let old = ScreenBuffer(old_cells);
    let mut diffs = Vec::new();
    diff_buffers(&mut diffs, &current, &old, 2);
    assert_eq!(
        diffs,
        vec![(1u16, 0u16, cell('X')), (1u16, 1u16, cell('Y')), (1u16, 2u16, cell('Z'))]
    );
}

#[test]
fn diff_list_is_cleared_between_calls() {
    let cells: Vec<TerminalCell> = "ab".chars().map(cell).collect();
    let changed: Vec<TerminalCell> = "xy".chars().map(cell).collect();
    let a = ScreenBuffer(cells.clone());
    let b = ScreenBuffer(changed);
    let mut diffs = Vec::new();
    diff_buffers(&mut diffs, &a, &b, 2);
    assert_eq!(diffs.len(), 2);
    let same = ScreenBuffer(cells);
    diff_buffers(&mut diffs, &a, &same, 2);
    assert!(diffs.is_empty());
}

#[test]
fn fresh_screen_forces_a_full_redraw() {
    let mut screen = Screen::new(20, 10);
    let mut diffs = Vec::new();
    diff_buffers(&mut diffs, &screen.current_buffer, &screen.old_buffer, screen.cols);
    assert_eq!(diffs.len(), 20 * 10);
    // After the copy step the buffers agree and the next diff is empty.
    screen.copy_current_to_old();
    diff_buffers(&mut diffs, &screen.current_buffer, &screen.old_buffer, screen.cols);
    assert!(diffs.is_empty());
}

#[test]
fn resize_mid_run_redraws_the_whole_new_screen() {
    let mut screen = Screen::new(20, 10);
    screen.copy_current_to_old();
    // A resize recreates the screen at the new dimensions.
    screen = Screen::new(30, 15);
    assert_eq!(screen.cols, 30);
    assert_eq!(screen.rows, 15);
    assert_eq!(screen.current_buffer.0.len(), 30 * 15);
    assert_eq!(screen.old_buffer.0.len(), 30 * 15);
    let mut diffs = Vec::new();
    diff_buffers(&mut diffs, &screen.current_buffer, &screen.old_buffer, screen.cols);
    assert_eq!(diffs.len(), 30 * 15);
}

#[test]
fn swap_buffers_exchanges_contents() {
    let mut screen = Screen::new(2, 1);
    let before_current = screen.current_buffer.0.clone();
    let before_old = screen.old_buffer.0.clone();
    screen.swap_buffers();
    assert_eq!(screen.current_buffer.0, before_old);
    assert_eq!(screen.old_buffer.0, before_current);
}
