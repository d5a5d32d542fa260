//! Fill and frame styling: a packed RGB color and an immutable style that
//! resolves which color paints the fill when a border is also present.
use crate::numfmt::hex_byte;
use crate::numfmt::push_hex_byte;
use vstd::prelude::*;

verus! {

/// A 24-bit RGB color, one byte per channel.
#[derive(Debug, Copy, Clone, PartialEq, Eq)]
pub struct Color(pub u8, pub u8, pub u8);

/// The color packed into the low 24 bits of `raw`: bits 16 to 23 are red,
/// 8 to 15 green, 0 to 7 blue.
pub open spec fn spec_color(raw: u32) -> Color {
    Color(((raw >> 16) & 255) as u8, ((raw >> 8) & 255) as u8, (raw & 255) as u8)
}

/// The `#rrggbb` hexadecimal rendering of a color, as ASCII bytes.
pub open spec fn hex_color(c: Color) -> Seq<u8> {
    seq![35u8] + hex_byte(c.0) + hex_byte(c.1) + hex_byte(c.2)
}

impl Color {
    /// The color packed into the low 24 bits of `raw`.
    pub fn from(raw: u32) -> (c: Color)
        ensures
            c == spec_color(raw),
    {
        Color(
            #[verifier::truncate] (((raw >> 16) & 255) as u8),
            #[verifier::truncate] (((raw >> 8) & 255) as u8),
            #[verifier::truncate] ((raw & 255) as u8),
        )
    }

    /// The `#rrggbb` rendering of this color.
    pub fn rgb(&self) -> (r: Vec<u8>)
        ensures
            r@ == hex_color(*self),
    {
        let mut out: Vec<u8> = Vec::new();
        out.push(35);
        push_hex_byte(&mut out, self.0);
        push_hex_byte(&mut out, self.1);
        push_hex_byte(&mut out, self.2);
        proof {
            assert(out@ =~= hex_color(*self));
        }
        out
    }
}

/// How a renderable is painted: a primary color, an optional background
/// fill, and an optional border thickness.
///
/// The primary color doubles as the border color when a border is set; the
/// background, when present, is then what fills the interior.
#[derive(Debug, Copy, Clone, PartialEq, Eq)]
pub struct Style {
    pub color: Color,
    pub background: Option<Color>,
    pub border: Option<i64>,
}

impl Style {
    /// Whether the interior of a shape is painted at all: always, except for
    /// a pure-border style without background.
    pub open spec fn spec_has_fill(self) -> bool {
        self.border is None || self.background is Some
    }

    /// The border color and thickness, when a border is set.
    pub open spec fn spec_frame(self) -> Option<(Color, i64)> {
        match self.border {
            Some(t) => Some((self.color, t)),
            None => None,
        }
    }

    /// Which color paints the fill: the background when a border and a
    /// background are both set, else the single color.
    pub open spec fn spec_fill_color(self) -> Color {
        match self.border {
            Some(_) => match self.background {
                Some(bg) => bg,
                None => self.color,
            },
            None => self.color,
        }
    }

    /// A fill-only style of the given packed RGB color.
    pub fn color(raw: u32) -> (s: Style)
        ensures
            s == (Style { color: spec_color(raw), background: None, border: None }),
    {
        Style { color: Color::from(raw), background: None, border: None }
    }

    /// The same style with a border of the given thickness.
    pub fn with_border(self, thickness: i64) -> (s: Style)
        ensures
            s == (Style { border: Some(thickness), ..self }),
    {
        Style { border: Some(thickness), ..self }
    }

    /// The same style with a background of the given packed RGB color.
    pub fn with_background(self, background: u32) -> (s: Style)
        ensures
            s == (Style { background: Some(spec_color(background)), ..self }),
    {
        Style { background: Some(Color::from(background)), ..self }
    }

    pub fn has_fill(&self) -> (r: bool)
        ensures
            r == self.spec_has_fill(),
    {
        match self.border {
            None => true,
            Some(_) => self.background.is_some(),
        }
    }

    pub fn get_frame(&self) -> (r: Option<(Color, i64)>)
        ensures
            r == self.spec_frame(),
    {
        match self.border {
            Some(t) => Some((self.color, t)),
            None => None,
        }
    }

    pub fn get_color(&self) -> (c: Color)
        ensures
            c == self.spec_fill_color(),
    {
        match self.border {
            Some(_) => match self.background {
                Some(bg) => bg,
                None => self.color,
            },
            None => self.color,
        }
    }
}

} // verus!
