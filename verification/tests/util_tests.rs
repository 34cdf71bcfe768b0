use term_slots::card_slot::build_card_slots;
use term_slots::color::Color;
use term_slots::draw::{draw_braille_dot, draw_rect, draw_text, fill_screen, spaces, Pos, Size};
use term_slots::rich_text::{Attributes, RichText};
use term_slots::screen::{fill_screen_background, ScreenBuffer, TerminalCell};
use term_slots::shader::apply_gamma;
use term_slots::utils::{center_text_unicode, iter_some, iter_some_mut, point_in_rect};

#[test]
fn point_in_rect_inclusive_bounds() {
    assert!(point_in_rect(3, 4, 3, 4, 5, 6));
    assert!(point_in_rect(5, 6, 3, 4, 5, 6));
    assert!(!point_in_rect(2, 4, 3, 4, 5, 6));
    assert!(!point_in_rect(6, 4, 3, 4, 5, 6));
    assert!(!point_in_rect(4, 7, 3, 4, 5, 6));
}

#[test]
fn iter_some_yields_occupied_entries_with_indexes() {
    let v: Vec<Option<u32>> = vec![None, Some(7), None, Some(9)];
    assert_eq!(iter_some(&v), vec![(1, 7), (3, 9)]);
    let mut w = v.clone();
    assert_eq!(iter_some_mut(&mut w), vec![(1, 7), (3, 9)]);
    assert_eq!(w, v);
}

#[test]
fn center_text_pads_spaces_on_both_sides() {
    assert_eq!(center_text_unicode(String::from("ab"), 6), "  ab  ");
    // The odd column goes to the right.
    assert_eq!(center_text_unicode(String::from("ab"), 5), " ab  ");
    // A text at least as wide as the field is returned unchanged.
    assert_eq!(center_text_unicode(String::from("abcdef"), 4), "abcdef");
}

#[test]
fn center_text_measures_display_columns_not_chars() {
    // A CJK ideograph occupies two columns, so one space fits each side.
    assert_eq!(center_text_unicode(String::from("好"), 4), " 好 ");
}

#[test]
fn spaces_builds_a_run_of_spaces() {
    assert_eq!(spaces(0), "");
    assert_eq!(spaces(4), "    ");
}

#[test]
fn build_card_slots_spaces_positions() {
    let slots = build_card_slots(9, 14, 4, 5);
    assert_eq!(slots.len(), 5);
    for (i, slot) in slots.iter().enumerate() {
        assert_eq!(slot.x, 9 + 4 * i as u16);
        assert_eq!(slot.y, 14);
        assert!(slot.card.is_none());
    }
}

#[test]
fn draw_text_and_rect_queue_calls() {
    let mut queue = Vec::new();
    draw_text(
        &mut queue,
        Pos::new(2, 3),
        RichText::new(String::from("hi")).fg(Color::white()),
    );
    assert_eq!(queue.len(), 1);
    assert_eq!(queue[0].x, 2);
    assert_eq!(queue[0].y, 3);
    assert_eq!(queue[0].rich_text.text, "hi");

    let color = Color::new(10, 20, 30, 128);
    draw_rect(&mut queue, Pos::new(-1, 4), Size::new(3, 2), color);
    assert_eq!(queue.len(), 3);
    for (k, dc) in queue[1..].iter().enumerate() {
        assert_eq!(dc.x, -1);
        assert_eq!(dc.y, 4 + k as i16);
        assert_eq!(dc.rich_text.text, "   ");
        assert_eq!(dc.rich_text.bg, color);
        assert_eq!(dc.rich_text.fg, Color::clear());
    }
}

#[test]
fn fill_screen_queues_one_call_per_row() {
    let mut queue = Vec::new();
    fill_screen(&mut queue, 4, 3, Color::black());
    assert_eq!(queue.len(), 3);
    assert_eq!(queue[0].rich_text.text.chars().count(), 4);
}

#[test]
fn braille_dots_pick_the_single_dot_glyph() {
    let mut queue = Vec::new();
    draw_braille_dot(&mut queue, Pos::new(0, 0), 0, 0, 255);
    draw_braille_dot(&mut queue, Pos::new(0, 0), 1, 2, 128);
    assert_eq!(queue[0].rich_text.text, "⠁");
    assert_eq!(queue[1].rich_text.text, "⠠");
    assert_eq!(queue[1].rich_text.fg, Color::new(255, 255, 255, 128));
}

#[test]
fn fill_screen_background_resets_every_cell() {
    let junk = TerminalCell {
        ch: 'x',
        fg: Color::new(1, 2, 3, 4),
        bg: Color::new(5, 6, 7, 8),
        attributes: Attributes::bold(),
    };
    let mut buf = ScreenBuffer(vec![junk; 6]);
    let green = Color::new(5, 37, 5, 255);
    fill_screen_background(&mut buf, green);
    for cell in &buf.0 {
        assert_eq!(cell.ch, ' ');
        assert_eq!(cell.fg, Color::black());
        assert_eq!(cell.bg, green);
        assert_eq!(cell.attributes, Attributes::empty());
    }
}

#[test]
fn apply_gamma_maps_channels_through_the_table() {
    let mut lut = [0u8; 256];
    for i in 0..256 {
        lut[i] = (255 - i) as u8;
    }
    let cell = TerminalCell {
        ch: 'g',
        fg: Color::new(10, 20, 30, 200),
        bg: Color::new(0, 255, 128, 99),
        attributes: Attributes::empty(),
    };
    let mut buf = ScreenBuffer(vec![cell]);
    apply_gamma(&mut buf, &lut);
    assert_eq!(buf.0[0].ch, 'g');
    assert_eq!(buf.0[0].fg, Color::new(245, 235, 225, 200));
    assert_eq!(buf.0[0].bg, Color::new(255, 0, 127, 99));
}

#[test]
fn attributes_combine_and_compare() {
    let a = Attributes::bold().union(Attributes::italic());
    assert!(a.contains(Attributes::bold()));
    assert!(a.contains(Attributes::italic()));
    assert!(!a.contains(Attributes::underlined()));
    assert!(a.contains(Attributes::empty()));
    assert_ne!(a, Attributes::bold());
    assert_eq!(
        Attributes::empty().union(Attributes::hidden()),
        Attributes::hidden()
    );
}
