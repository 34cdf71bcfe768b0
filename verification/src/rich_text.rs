//! A positioned run of styled text: the unit producers submit each frame.

use vstd::prelude::*;

use crate::color::Color;

verus! {

/// The style flags a cell or a text run can carry. Flags combine and
/// compare field by field.
#[derive(Clone, Copy, PartialEq, Eq, Structural, Debug)]
pub struct Attributes {
    pub bold: bool,
    pub italic: bool,
    pub underlined: bool,
    pub hidden: bool,
}

impl Attributes {
    /// No flag set.
    pub fn empty() -> (a: Attributes)
        ensures
            a == Attributes::spec_empty(),
    {
        Attributes { bold: false, italic: false, underlined: false, hidden: false }
    }

    pub open spec fn spec_empty() -> Attributes {
        Attributes { bold: false, italic: false, underlined: false, hidden: false }
    }

    pub fn bold() -> (a: Attributes)
        ensures
            a == (Attributes { bold: true, italic: false, underlined: false, hidden: false }),
    {
        Attributes { bold: true, italic: false, underlined: false, hidden: false }
    }

    pub fn italic() -> (a: Attributes)
        ensures
            a == (Attributes { bold: false, italic: true, underlined: false, hidden: false }),
    {
        Attributes { bold: false, italic: true, underlined: false, hidden: false }
    }

    pub fn underlined() -> (a: Attributes)
        ensures
            a == (Attributes { bold: false, italic: false, underlined: true, hidden: false }),
    {
        Attributes { bold: false, italic: false, underlined: true, hidden: false }
    }

    pub fn hidden() -> (a: Attributes)
        ensures
            a == (Attributes { bold: false, italic: false, underlined: false, hidden: true }),
    {
        Attributes { bold: false, italic: false, underlined: false, hidden: true }
    }

    /// The flag-wise combination of two attribute sets.
    pub fn union(self, other: Attributes) -> (a: Attributes)
        ensures
            a == (Attributes {
                bold: self.bold || other.bold,
                italic: self.italic || other.italic,
                underlined: self.underlined || other.underlined,
                hidden: self.hidden || other.hidden,
            }),
    {
        Attributes {
            bold: self.bold || other.bold,
            italic: self.italic || other.italic,
            underlined: self.underlined || other.underlined,
            hidden: self.hidden || other.hidden,
        }
    }

    /// Whether every flag set in `other` is also set in `self`.
    pub fn contains(self, other: Attributes) -> (r: bool)
        ensures
            r == ((other.bold ==> self.bold) && (other.italic ==> self.italic) && (other.underlined
                ==> self.underlined) && (other.hidden ==> self.hidden)),
    {
        (!other.bold || self.bold) && (!other.italic || self.italic) && (!other.underlined
            || self.underlined) && (!other.hidden || self.hidden)
    }
}

/// A styled run of text: the content of one draw call.
pub struct RichText {
    pub text: String,
    pub fg: Color,
    pub bg: Color,
    pub attributes: Attributes,
}

impl RichText {
    /// A run with the default style: opaque white ink over a fully
    /// transparent background, no attributes.
    pub fn new(text: String) -> (r: RichText)
        ensures
            r.text@ == text@,
            r.fg == (Color { r: 255u8, g: 255u8, b: 255u8, a: 255u8 }),
            r.bg == (Color { r: 0u8, g: 0u8, b: 0u8, a: 0u8 }),
            r.attributes == Attributes::spec_empty(),
    {
        RichText {
            text,
            fg: Color::white(),
            bg: Color::clear(),
            attributes: Attributes::empty(),
        }
    }

    pub fn fg(self, color: Color) -> (r: RichText)
        ensures
            r.text@ == self.text@,
            r.fg == color,
            r.bg == self.bg,
            r.attributes == self.attributes,
    {
        RichText { fg: color, ..self }
    }

    pub fn bg(self, color: Color) -> (r: RichText)
        ensures
            r.text@ == self.text@,
            r.fg == self.fg,
            r.bg == color,
            r.attributes == self.attributes,
    {
        RichText { bg: color, ..self }
    }

    pub fn attributes(self, attributes: Attributes) -> (r: RichText)
        ensures
            r.text@ == self.text@,
            r.fg == self.fg,
            r.bg == self.bg,
            r.attributes == attributes,
    {
        RichText { attributes, ..self }
    }
}

impl Clone for RichText {
    fn clone(&self) -> (r: RichText)
        ensures
            r.text@ == self.text@,
            r.fg == self.fg,
            r.bg == self.bg,
            r.attributes == self.attributes,
    {
        RichText {
            text: self.text.clone(),
            fg: self.fg,
            bg: self.bg,
            attributes: self.attributes,
        }
    }
}

} // verus!
