use term_slots::color::{blend_over, Color};

#[test]
fn channel_accessors_roundtrip() {
    let c = Color::new(12, 34, 56, 78);
    assert_eq!(c.r(), 12);
    assert_eq!(c.g(), 34);
    assert_eq!(c.b(), 56);
    assert_eq!(c.a(), 78);
    assert_eq!(c.rgb(), (12, 34, 56));
    assert_eq!(c.rgba(), (12, 34, 56, 78));
}

#[test]
fn named_colors() {
    assert_eq!(Color::white(), Color::new(255, 255, 255, 255));
    assert_eq!(Color::black(), Color::new(0, 0, 0, 255));
    assert_eq!(Color::clear(), Color::new(0, 0, 0, 0));
}

#[test]
fn blend_opaque_top_returns_top_exactly() {
    let bottom = Color::new(17, 99, 200, 43);
    let top = Color::new(250, 1, 2, 255);
    assert_eq!(blend_over(bottom, top), top);
}

#[test]
fn blend_transparent_top_returns_bottom_exactly() {
    let bottom = Color::new(17, 99, 200, 43);
    let top = Color::new(250, 1, 2, 0);
    assert_eq!(blend_over(bottom, top), bottom);
}

#[test]
fn blend_both_transparent_is_clear() {
    let bottom = Color::new(17, 99, 200, 0);
    let top = Color::new(250, 1, 2, 0);
    assert_eq!(blend_over(bottom, top), Color::new(0, 0, 0, 0));
}

#[test]
fn blend_half_black_over_red_tints() {
    let red = Color::new(255, 0, 0, 255);
    let half_black = Color::new(0, 0, 0, 128);
    assert_eq!(blend_over(red, half_black), Color::new(127, 0, 0, 255));
}

#[test]
fn blend_half_white_over_black() {
    let black = Color::new(0, 0, 0, 255);
    let half_white = Color::new(255, 255, 255, 128);
    assert_eq!(blend_over(black, half_white), Color::new(128, 128, 128, 255));
}

#[test]
fn blend_general_translucent_case() {
    let bottom = Color::new(100, 150, 200, 200);
    let top = Color::new(50, 60, 70, 100);
    assert_eq!(blend_over(bottom, top), Color::new(77, 109, 141, 222));
}

#[test]
fn blend_is_deterministic() {
    let bottom = Color::new(1, 2, 3, 77);
    let top = Color::new(200, 100, 50, 130);
    let first = blend_over(bottom, top);
    let second = blend_over(bottom, top);
    assert_eq!(first, second);
}
