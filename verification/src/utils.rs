//! Small shared helpers: hit testing, option filtering and text centring.

use vstd::prelude::*;

use crate::draw::spaces;

verus! {

/// Whether `(x, y)` lies in the inclusive rectangle from `(rect_x1,
/// rect_y1)` to `(rect_x2, rect_y2)`.
pub open spec fn spec_point_in_rect(
    x: int,
    y: int,
    rect_x1: int,
    rect_y1: int,
    rect_x2: int,
    rect_y2: int,
) -> bool {
    rect_x1 <= x <= rect_x2 && rect_y1 <= y <= rect_y2
}

pub fn point_in_rect(x: u16, y: u16, rect_x1: u16, rect_y1: u16, rect_x2: u16, rect_y2: u16) -> (r:
    bool)
    ensures
        r == spec_point_in_rect(
            x as int,
            y as int,
            rect_x1 as int,
            rect_y1 as int,
            rect_x2 as int,
            rect_y2 as int,
        ),
{
    x >= rect_x1 && x <= rect_x2 && y >= rect_y1 && y <= rect_y2
}

/// The occupied entries of a row of options, each with its index, in
/// order.
pub open spec fn spec_some_entries<T>(s: Seq<Option<T>>) -> Seq<(usize, T)>
    decreases s.len(),
{
    if s.len() == 0 {
        Seq::empty()
    } else {
        spec_some_entries(s.drop_last()) + match s.last() {
            Some(x) => seq![(((s.len() - 1) as usize), x)],
            None => Seq::empty(),
        }
    }
}

/// The occupied entries of a row of options, each with its index.
pub fn iter_some<T: Copy>(vec: &Vec<Option<T>>) -> (r: Vec<(usize, T)>)
    ensures
        r@ == spec_some_entries(vec@),
{
    let mut r: Vec<(usize, T)> = Vec::new();
    let mut k: usize = 0;
    while k < vec.len()
        invariant
            k <= vec@.len(),
            r@ == spec_some_entries(vec@.take(k as int)),
        decreases vec@.len() - k,
    {
        if let Some(x) = vec[k] {
            r.push((k, x));
        }
        k = k + 1;
        proof {
            assert(vec@.take(k as int).drop_last() =~= vec@.take(k as int - 1));
        }
    }
    proof {
        assert(vec@.take(vec@.len() as int) =~= vec@);
    }
    r
}

/// The occupied entries of a mutably borrowed row; the row itself is left
/// untouched.
pub fn iter_some_mut<T: Copy>(vec: &mut Vec<Option<T>>) -> (r: Vec<(usize, T)>)
    ensures
        final(vec)@ == old(vec)@,
        r@ == spec_some_entries(old(vec)@),
{
    iter_some(vec)
}

/// The displayed width of a string in terminal columns. Wide characters
/// (for instance CJK ideographs) count two columns, most others one; the
/// exact table is the Unicode standard's and is left unstated here.
pub uninterp spec fn display_width(s: Seq<char>) -> nat;

/// Relies on unicode_width's `UnicodeWidthStr::width`: the displayed
/// column width of the string, a function of its characters alone.
#[verifier::external_body]
fn text_display_width(text: &str) -> (w: usize)
    ensures
        w as nat == display_width(text@),
{
    unicode_width::UnicodeWidthStr::width(text)
}

/// Centre a text in a field of `width` columns, measured in displayed
/// columns rather than characters: pad with spaces left and right, the
/// right side taking the odd column. A text at least as wide as the field
/// comes back unchanged.
pub fn center_text_unicode(text: String, width: usize) -> (r: String)
    ensures
        display_width(text@) >= width ==> r@ == text@,
        display_width(text@) < width ==> {
            let left = (width - display_width(text@)) / 2;
            let right = width - display_width(text@) - left;
            r@ == Seq::new(left as nat, |i: int| ' ') + text@ + Seq::new(right as nat, |i: int| ' ')
        },
{
    let text_width: usize = text_display_width(text.as_str());
    if text_width >= width {
        return text;
    }
    let left_padding: usize = (width - text_width) / 2;
    let right_padding: usize = width - text_width - left_padding;
    let mut r: String = spaces(left_padding);
    r.append(text.as_str());
    let right: String = spaces(right_padding);
    r.append(right.as_str());
    r
}

} // verus!
