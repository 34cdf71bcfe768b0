//! Draw calls and the helpers that append them to a frame's queue.

use vstd::prelude::*;

use crate::color::Color;
use crate::rich_text::{Attributes, RichText};

verus! {

/// A position on the character grid. Coordinates may be negative or lie
/// beyond the screen; the compositor clips.
#[derive(Clone, Copy, PartialEq, Eq, Structural, Debug)]
pub struct Pos {
    pub x: i16,
    pub y: i16,
}

impl Pos {
    pub fn new(x: i16, y: i16) -> (p: Pos)
        ensures
            p == (Pos { x, y }),
    {
        Pos { x, y }
    }
}

/// A rectangle extent in cells.
#[derive(Clone, Copy, PartialEq, Eq, Structural, Debug)]
pub struct Size {
    pub width: i16,
    pub height: i16,
}

impl Size {
    pub fn new(w: i16, h: i16) -> (s: Size)
        ensures
            s == (Size { width: w, height: h }),
    {
        Size { width: w, height: h }
    }
}

/// One positioned, styled text run submitted for rendering this frame.
/// `(x, y)` is the column and row of the leftmost character.
pub struct DrawCall {
    pub rich_text: RichText,
    pub x: i16,
    pub y: i16,
}

/// A string of `n` spaces.
pub fn spaces(n: usize) -> (s: String)
    ensures
        s@ == Seq::new(n as nat, |i: int| ' '),
{
    let mut s = String::new();
    let mut k: usize = 0;
    while k < n
        invariant
            k <= n,
            s@ == Seq::new(k as nat, |i: int| ' '),
        decreases n - k,
    {
        proof {
            reveal_strlit(" ");
        }
        s.append(" ");
        k = k + 1;
        proof {
            reveal_strlit(" ");
            assert(s@ =~= Seq::new(k as nat, |i: int| ' '));
        }
    }
    s
}

/// Queue one text run at a position.
pub fn draw_text(draw_queue: &mut Vec<DrawCall>, pos: Pos, rich_text: RichText)
    ensures
        final(draw_queue)@.len() == old(draw_queue)@.len() + 1,
        forall|i: int| 0 <= i < old(draw_queue)@.len() ==> final(draw_queue)@[i] == old(
            draw_queue,
        )@[i],
        final(draw_queue)@.last().x == pos.x,
        final(draw_queue)@.last().y == pos.y,
        final(draw_queue)@.last().rich_text == rich_text,
{
    draw_queue.push(DrawCall { rich_text, x: pos.x, y: pos.y });
}

/// What each row call queued for a rectangle looks like: a run of
/// `size.width` spaces at row `pos.y + k`, invisible ink over `color`.
pub open spec fn rect_row_call(dc: DrawCall, pos: Pos, size: Size, color: Color, k: int) -> bool {
    &&& dc.x == pos.x
    &&& dc.y == pos.y + k
    &&& dc.rich_text.text@ == Seq::new(size.width as nat, |i: int| ' ')
    &&& dc.rich_text.fg == (Color { r: 0u8, g: 0u8, b: 0u8, a: 0u8 })
    &&& dc.rich_text.bg == color
    &&& dc.rich_text.attributes == Attributes::spec_empty()
}

/// Queue a filled rectangle: one row of spaces per line, drawn with a fully
/// transparent foreground so that glyphs already on screen show through and
/// only the background colour is painted.
pub fn draw_rect(draw_queue: &mut Vec<DrawCall>, pos: Pos, size: Size, color: Color)
    requires
        size.width >= 0,
        size.height >= 0,
        pos.y + size.height <= i16::MAX,
    ensures
        final(draw_queue)@.len() == old(draw_queue)@.len() + size.height,
        forall|i: int| 0 <= i < old(draw_queue)@.len() ==> final(draw_queue)@[i] == old(
            draw_queue,
        )@[i],
        forall|k: int|
            0 <= k < size.height ==> rect_row_call(
                #[trigger] final(draw_queue)@[old(draw_queue)@.len() + k],
                pos,
                size,
                color,
                k,
            ),
{
    let width: usize = size.width as usize;
    let mut row: i16 = 0;
    while row < size.height
        invariant
            0 <= row <= size.height,
            pos.y + size.height <= i16::MAX,
            size.width >= 0,
            width == size.width,
            draw_queue@.len() == old(draw_queue)@.len() + row,
            forall|i: int| 0 <= i < old(draw_queue)@.len() ==> draw_queue@[i] == old(
                draw_queue,
            )@[i],
            forall|k: int|
                0 <= k < row ==> rect_row_call(
                    #[trigger] draw_queue@[old(draw_queue)@.len() + k],
                    pos,
                    size,
                    color,
                    k,
                ),
        decreases size.height - row,
    {
        let row_text: String = spaces(width);
        let row_rich_text: RichText = RichText::new(row_text).fg(Color::clear()).bg(color);
        draw_queue.push(DrawCall { rich_text: row_rich_text, x: pos.x, y: pos.y + row });
        row = row + 1;
    }
}

/// The braille character carrying the single dot at `(dot_x, dot_y)` of
/// the two-by-three dot grid inside one cell. Out-of-range coordinates
/// fall back to the top row rather than being rejected.
pub open spec fn spec_braille_dot_char(dot_x: int, dot_y: int) -> char {
    if dot_x == 1 {
        if dot_y == 1 {
            '⠐'
        } else if dot_y == 2 {
            '⠠'
        } else {
            '⠈'
        }
    } else {
        if dot_y == 1 {
            '⠂'
        } else if dot_y == 2 {
            '⠄'
        } else {
            '⠁'
        }
    }
}

/// Queue a single braille dot at the sub-cell position `(dot_x, dot_y)`
/// inside the two-by-three grid of one cell, in white ink of the given
/// alpha over an untouched background.
pub fn draw_braille_dot(draw_queue: &mut Vec<DrawCall>, pos: Pos, dot_x: u8, dot_y: usize, alpha:
    u8)
    ensures
        final(draw_queue)@.len() == old(draw_queue)@.len() + 1,
        forall|i: int| 0 <= i < old(draw_queue)@.len() ==> final(draw_queue)@[i] == old(
            draw_queue,
        )@[i],
        final(draw_queue)@.last().x == pos.x,
        final(draw_queue)@.last().y == pos.y,
        final(draw_queue)@.last().rich_text.text@ == seq![
            spec_braille_dot_char(dot_x as int, dot_y as int),
        ],
        final(draw_queue)@.last().rich_text.fg == (Color { r: 255u8, g: 255u8, b: 255u8, a: alpha }),
        final(draw_queue)@.last().rich_text.bg == (Color { r: 0u8, g: 0u8, b: 0u8, a: 0u8 }),
        final(draw_queue)@.last().rich_text.attributes == Attributes::spec_empty(),
{
    let dot: &'static str = if dot_x == 1 {
        if dot_y == 1 {
            "⠐"
        } else if dot_y == 2 {
            "⠠"
        } else {
            "⠈"
        }
    } else {
        if dot_y == 1 {
            "⠂"
        } else if dot_y == 2 {
            "⠄"
        } else {
            "⠁"
        }
    };
    proof {
        reveal_strlit("⠐");
        reveal_strlit("⠠");
        reveal_strlit("⠈");
        reveal_strlit("⠂");
        reveal_strlit("⠄");
        reveal_strlit("⠁");
    }
    let rich_text: RichText = RichText::new(String::from_str(dot)).fg(
        Color::new(255, 255, 255, alpha),
    );
    draw_queue.push(DrawCall { rich_text, x: pos.x, y: pos.y });
}

/// Queue a rectangle covering the whole screen, painted in one colour.
pub fn fill_screen(draw_queue: &mut Vec<DrawCall>, cols: u16, rows: u16, color: Color)
    requires
        cols <= i16::MAX,
        rows <= i16::MAX,
    ensures
        final(draw_queue)@.len() == old(draw_queue)@.len() + rows,
        forall|i: int| 0 <= i < old(draw_queue)@.len() ==> final(draw_queue)@[i] == old(
            draw_queue,
        )@[i],
        forall|k: int|
            0 <= k < rows ==> rect_row_call(
                #[trigger] final(draw_queue)@[old(draw_queue)@.len() + k],
                Pos { x: 0i16, y: 0i16 },
                Size { width: cols as i16, height: rows as i16 },
                color,
                k,
            ),
{
    draw_rect(
        draw_queue,
        Pos { x: 0, y: 0 },
        Size { width: cols as i16, height: rows as i16 },
        color,
    );
}

} // verus!
