//! Post-processing over a composed buffer: the gamma lookup pass.

use vstd::prelude::*;

use crate::color::Color;
use crate::screen::{ScreenBuffer, TerminalCell};

verus! {

/// A colour with each of its red, green and blue channels replaced by its
/// entry in a 256-entry lookup table; alpha passes through.
pub open spec fn spec_gamma_color(lut: Seq<u8>, c: Color) -> Color {
    Color { r: lut[c.r as int], g: lut[c.g as int], b: lut[c.b as int], a: c.a }
}

/// A cell with both of its colours run through the lookup table; the
/// character and attributes pass through.
pub open spec fn spec_gamma_cell(lut: Seq<u8>, cell: TerminalCell) -> TerminalCell {
    TerminalCell {
        ch: cell.ch,
        fg: spec_gamma_color(lut, cell.fg),
        bg: spec_gamma_color(lut, cell.bg),
        attributes: cell.attributes,
    }
}

/// Run every cell's foreground and background channels through a gamma
/// lookup table.
pub fn apply_gamma(buffer: &mut ScreenBuffer, lut: &[u8; 256])
    ensures
        final(buffer).0@.len() == old(buffer).0@.len(),
        forall|i: int|
            0 <= i < final(buffer).0@.len() ==> final(buffer).0@[i] == spec_gamma_cell(
                lut@,
                old(buffer).0@[i],
            ),
{
    let len: usize = buffer.0.len();
    let mut k: usize = 0;
    while k < len
        invariant
            k <= len,
            buffer.0@.len() == len,
            forall|i: int| 0 <= i < k ==> buffer.0@[i] == spec_gamma_cell(lut@, old(buffer).0@[i]),
            forall|i: int| k <= i < len ==> buffer.0@[i] == old(buffer).0@[i],
        decreases len - k,
    {
        let cell: TerminalCell = buffer.0[k];
        let fg: Color = Color {
            r: lut[cell.fg.r as usize],
            g: lut[cell.fg.g as usize],
            b: lut[cell.fg.b as usize],
            a: cell.fg.a,
        };
        let bg: Color = Color {
            r: lut[cell.bg.r as usize],
            g: lut[cell.bg.g as usize],
            b: lut[cell.bg.b as usize],
            a: cell.bg.a,
        };
        buffer.0[k] = TerminalCell { ch: cell.ch, fg, bg, attributes: cell.attributes };
        k = k + 1;
    }
}

} // verus!
