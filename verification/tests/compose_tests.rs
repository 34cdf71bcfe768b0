use term_slots::color::{blend_over, Color};
use term_slots::draw::DrawCall;
use term_slots::rich_text::{Attributes, RichText};
use term_slots::screen::{compose_buffer, compose_cell, ScreenBuffer, TerminalCell};

fn cell(ch: char, fg: Color, bg: Color) -> TerminalCell {
    TerminalCell { ch, fg, bg, attributes: Attributes::empty() }
}

fn buffer(cols: usize, rows: usize, fill: TerminalCell) -> ScreenBuffer {
    ScreenBuffer(vec![fill; cols * rows])
}

fn call(text: &str, x: i16, y: i16, fg: Color, bg: Color) -> DrawCall {
    DrawCall { rich_text: RichText::new(String::from(text)).fg(fg).bg(bg), x, y }
}

#[test]
fn opaque_draw_overwrites_cell_exactly() {
    let old = cell('Z', Color::new(1, 2, 3, 200), Color::new(9, 8, 7, 130));
    let fg = Color::new(10, 20, 30, 255);
    let bg = Color::new(40, 50, 60, 255);
    let out = compose_cell(&old, 'A', fg, bg, Attributes::bold());
    assert_eq!(out, TerminalCell { ch: 'A', fg, bg, attributes: Attributes::bold() });
}

#[test]
fn fully_transparent_draw_leaves_cell_unchanged() {
    let old = cell('Q', Color::new(1, 2, 3, 200), Color::new(9, 8, 7, 130));
    let out = compose_cell(&old, 'X', Color::new(10, 20, 30, 0), Color::new(40, 50, 60, 0),
        Attributes::bold());
    assert_eq!(out, old);
}

#[test]
fn space_over_glyph_tints_ink_and_background() {
    // An opaque red 'A' on black, then a space with a half-transparent
    // black background: the glyph survives, ink and backdrop darken.
    let red = Color::new(255, 0, 0, 255);
    let black = Color::new(0, 0, 0, 255);
    let half_black = Color::new(0, 0, 0, 128);
    let mut buf = buffer(1, 1, cell(' ', Color::white(), black));

    let first = call("A", 0, 0, red, black);
    let second = call(" ", 0, 0, Color::new(0, 0, 0, 0), half_black);
    compose_buffer(&mut buf, &vec![first, second], 1, 1);

    let out = buf.0[0];
    assert_eq!(out.ch, 'A');
    assert_eq!(out.bg, blend_over(black, half_black));
    assert_eq!(out.fg, blend_over(red, half_black));
    assert_eq!(out.fg, Color::new(127, 0, 0, 255));
}

#[test]
fn left_clipping_drops_offscreen_prefix() {
    // Text starting at column -3 composites only from its fourth
    // character onward, starting at column 0.
    let fill = cell('.', Color::white(), Color::black());
    let mut buf = buffer(10, 1, fill);
    let dc = call("ABCDEFG", -3, 0, Color::new(255, 255, 255, 255), Color::new(0, 0, 0, 255));
    compose_buffer(&mut buf, &vec![dc], 10, 1);
    let chars: Vec<char> = buf.0.iter().map(|c| c.ch).collect();
    assert_eq!(chars, vec!['D', 'E', 'F', 'G', '.', '.', '.', '.', '.', '.']);
}

#[test]
fn right_clipping_stops_at_last_column() {
    let fill = cell('.', Color::white(), Color::black());
    let mut buf = buffer(4, 1, fill);
    let dc = call("ABCDEFG", 2, 0, Color::new(255, 255, 255, 255), Color::new(0, 0, 0, 255));
    compose_buffer(&mut buf, &vec![dc], 4, 1);
    let chars: Vec<char> = buf.0.iter().map(|c| c.ch).collect();
    assert_eq!(chars, vec!['.', '.', 'A', 'B']);
}

#[test]
fn call_entirely_right_of_buffer_composites_nothing() {
    let fill = cell('.', Color::white(), Color::black());
    let mut buf = buffer(10, 1, fill);
    let dc = call("ABC", 10, 0, Color::new(255, 255, 255, 255), Color::new(0, 0, 0, 255));
    compose_buffer(&mut buf, &vec![dc], 10, 1);
    assert!(buf.0.iter().all(|c| *c == fill));
}

#[test]
fn call_off_grid_rows_composites_nothing() {
    let fill = cell('.', Color::white(), Color::black());
    let mut buf = buffer(3, 2, fill);
    let above = call("AB", 0, -1, Color::new(255, 255, 255, 255), Color::new(0, 0, 0, 255));
    let below = call("AB", 0, 2, Color::new(255, 255, 255, 255), Color::new(0, 0, 0, 255));
    compose_buffer(&mut buf, &vec![above, below], 3, 2);
    assert!(buf.0.iter().all(|c| *c == fill));
}

#[test]
fn later_calls_layer_over_earlier_ones() {
    let fill = cell(' ', Color::white(), Color::black());
    let mut buf = buffer(2, 1, fill);
    let under = call("AB", 0, 0, Color::new(10, 10, 10, 255), Color::new(1, 1, 1, 255));
    let over = call("C", 0, 0, Color::new(20, 20, 20, 255), Color::new(2, 2, 2, 255));
    compose_buffer(&mut buf, &vec![under, over], 2, 1);
    assert_eq!(buf.0[0].ch, 'C');
    assert_eq!(buf.0[0].fg, Color::new(20, 20, 20, 255));
    assert_eq!(buf.0[1].ch, 'B');
    assert_eq!(buf.0[1].fg, Color::new(10, 10, 10, 255));
}

#[test]
fn translucent_glyph_blends_against_old_ink() {
    let old = cell('#', Color::new(255, 0, 0, 255), Color::new(0, 0, 0, 255));
    let fg = Color::new(0, 0, 255, 128);
    let out = compose_cell(&old, 'O', fg, Color::new(0, 0, 0, 0), Attributes::empty());
    assert_eq!(out.ch, 'O');
    assert_eq!(out.fg, blend_over(Color::new(255, 0, 0, 255), fg));
}

#[test]
fn translucent_glyph_over_empty_cell_blends_against_background() {
    let old = cell(' ', Color::new(255, 0, 0, 255), Color::new(0, 100, 0, 255));
    let fg = Color::new(0, 0, 255, 128);
    let out = compose_cell(&old, 'O', fg, Color::new(0, 0, 0, 0), Attributes::empty());
    assert_eq!(out.ch, 'O');
    assert_eq!(out.fg, blend_over(Color::new(0, 100, 0, 255), fg));
}
