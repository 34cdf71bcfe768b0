use term_slots::color::Color;
use term_slots::draw::{draw_rect, draw_text, fill_screen, DrawCall, Pos, Size};
use term_slots::rich_text::{Attributes, RichText};
use term_slots::screen::{compose_buffer, diff_buffers, fill_screen_background, Screen};

fn scene_queue(cols: u16, rows: u16) -> Vec<DrawCall> {
    let mut queue: Vec<DrawCall> = Vec::new();
    fill_screen(&mut queue, cols, rows, Color::new(5, 37, 5, 255));
    draw_rect(&mut queue, Pos::new(3, 2), Size::new(6, 4), Color::new(0, 0, 0, 102));
    draw_text(
        &mut queue,
        Pos::new(1, 1),
        RichText::new(String::from("score"))
            .fg(Color::new(255, 255, 155, 255))
            .attributes(Attributes::bold()),
    );
    queue
}

#[test]
fn full_frame_cycle_then_static_scene_diffs_to_nothing() {
    // One whole frame at the real terminal dimensions: clear to the
    // backdrop, composite a scene, diff against the fresh screen (full
    // redraw), commit, then render the identical frame again. The blending
    // arithmetic is deterministic, so the second frame diffs to nothing.
    let backdrop = Color::new(5, 37, 5, 255);
    let mut screen = Screen::new(54, 30);
    let queue = scene_queue(screen.cols, screen.rows);

    fill_screen_background(&mut screen.current_buffer, backdrop);
    compose_buffer(&mut screen.current_buffer, &queue, screen.cols, screen.rows);
    let mut diffs = Vec::new();
    diff_buffers(&mut diffs, &screen.current_buffer, &screen.old_buffer, screen.cols);
    assert_eq!(diffs.len(), 54 * 30);
    screen.copy_current_to_old();

    let queue_again = scene_queue(screen.cols, screen.rows);
    fill_screen_background(&mut screen.current_buffer, backdrop);
    compose_buffer(&mut screen.current_buffer, &queue_again, screen.cols, screen.rows);
    diff_buffers(&mut diffs, &screen.current_buffer, &screen.old_buffer, screen.cols);
    assert!(diffs.is_empty());
}

#[test]
fn incremental_change_diffs_to_exactly_the_touched_cells() {
    let mut screen = Screen::new(10, 4);
    let queue = scene_queue(screen.cols, screen.rows);
    compose_buffer(&mut screen.current_buffer, &queue, screen.cols, screen.rows);
    screen.copy_current_to_old();

    // One further opaque two-character run touches exactly two cells.
    let mut extra: Vec<DrawCall> = Vec::new();
    draw_text(
        &mut extra,
        Pos::new(4, 3),
        RichText::new(String::from("ok"))
            .fg(Color::new(1, 2, 3, 255))
            .bg(Color::new(9, 9, 9, 255)),
    );
    compose_buffer(&mut screen.current_buffer, &extra, screen.cols, screen.rows);
    let mut diffs = Vec::new();
    diff_buffers(&mut diffs, &screen.current_buffer, &screen.old_buffer, screen.cols);
    assert_eq!(diffs.len(), 2);
    assert_eq!((diffs[0].0, diffs[0].1), (4, 3));
    assert_eq!((diffs[1].0, diffs[1].1), (5, 3));
    assert_eq!(diffs[0].2.ch, 'o');
    assert_eq!(diffs[1].2.ch, 'k');
}
