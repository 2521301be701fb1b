//! Colour schemes of the candidate window and the status bar. The accent only
//! changes three colours: the brand colour, the highlight and the hover shade;
//! the semantic colours stay.

use vstd::prelude::*;

use crate::config::AccentColor;

verus! {

/// An sRGB colour with straight alpha.
#[derive(Debug, Clone, Copy, PartialEq, Eq, Structural)]
pub struct Color {
    pub r: u8,
    pub g: u8,
    pub b: u8,
    pub a: u8,
}

impl Color {
    /// An opaque colour.
    pub fn rgb(r: u8, g: u8, b: u8) -> (c: Color)
        ensures
            c == (Color { r, g, b, a: 255 }),
    {
        Color { r, g, b, a: 255 }
    }

    pub fn rgba(r: u8, g: u8, b: u8, a: u8) -> (c: Color)
        ensures
            c == (Color { r, g, b, a }),
    {
        Color { r, g, b, a }
    }

    /// A grey of level `v` with alpha `a`.
    pub fn gray(v: u8, a: u8) -> (c: Color)
        ensures
            c == (Color { r: v, g: v, b: v, a }),
    {
        Color { r: v, g: v, b: v, a }
    }
}

/// Which accent the interface uses; one for one with [`AccentColor`].
#[derive(Debug, Clone, Copy, PartialEq, Eq, Structural)]
pub enum Accent {
    /// Qingjian green (the default).
    Qingjian,
    /// Classic blue.
    Classic,
}

impl Default for Accent {
    fn default() -> (r: Self)
        ensures
            r == Accent::Qingjian,
    {
        Accent::Qingjian
    }
}

pub open spec fn brand_spec(accent: Accent, dark: bool) -> Color {
    match (accent, dark) {
        (Accent::Qingjian, false) => Color { r: 94, g: 140, b: 62, a: 255 },
        (Accent::Qingjian, true) => Color { r: 176, g: 206, b: 125, a: 255 },
        (Accent::Classic, false) => Color { r: 0, g: 122, b: 255, a: 255 },
        (Accent::Classic, true) => Color { r: 90, g: 168, b: 255, a: 255 },
    }
}

pub open spec fn highlight_spec(accent: Accent, dark: bool) -> Color {
    match (accent, dark) {
        (Accent::Qingjian, false) => Color { r: 176, g: 206, b: 125, a: 127 },
        (Accent::Qingjian, true) => Color { r: 36, g: 76, b: 36, a: 255 },
        (Accent::Classic, _) => Color { r: 0, g: 122, b: 255, a: 41 },
    }
}

pub open spec fn hover_spec(accent: Accent, dark: bool) -> Color {
    match (accent, dark) {
        (Accent::Qingjian, false) => Color { r: 176, g: 206, b: 125, a: 20 },
        (Accent::Qingjian, true) => Color { r: 176, g: 206, b: 125, a: 32 },
        (Accent::Classic, false) => Color { r: 0, g: 122, b: 255, a: 20 },
        (Accent::Classic, true) => Color { r: 0, g: 122, b: 255, a: 32 },
    }
}

impl Accent {
    /// The brand colour: darker on a light background, brighter on a dark one.
    fn brand(self, dark: bool) -> (c: Color)
        ensures
            c == brand_spec(self, dark),
    {
        match (self, dark) {
            (Accent::Qingjian, false) => Color::rgb(94, 140, 62),
            (Accent::Qingjian, true) => Color::rgb(176, 206, 125),
            (Accent::Classic, false) => Color::rgb(0, 122, 255),
            (Accent::Classic, true) => Color::rgb(90, 168, 255),
        }
    }

    /// The highlight of the current candidate and of the pointed status cell.
    fn highlight(self, dark: bool) -> (c: Color)
        ensures
            c == highlight_spec(self, dark),
    {
        match (self, dark) {
            (Accent::Qingjian, false) => Color::rgba(176, 206, 125, 127),
            (Accent::Qingjian, true) => Color::rgba(36, 76, 36, 255),
            (Accent::Classic, false) => Color::rgba(0, 122, 255, 41),
            (Accent::Classic, true) => Color::rgba(0, 122, 255, 41),
        }
    }

    /// The hover shade, one step lighter than the highlight.
    fn hover(self, dark: bool) -> (c: Color)
        ensures
            c == hover_spec(self, dark),
    {
        match (self, dark) {
            (Accent::Qingjian, false) => Color::rgba(176, 206, 125, 20),
            (Accent::Qingjian, true) => Color::rgba(176, 206, 125, 32),
            (Accent::Classic, false) => Color::rgba(0, 122, 255, 20),
            (Accent::Classic, true) => Color::rgba(0, 122, 255, 32),
        }
    }
}

/// The accent that the configuration's colour names.
pub fn accent_of(accent: AccentColor) -> (r: Accent)
    ensures
        r == (match accent {
            AccentColor::Qingjian => Accent::Qingjian,
            AccentColor::Classic => Accent::Classic,
        }),
{
    match accent {
        AccentColor::Qingjian => Accent::Qingjian,
        AccentColor::Classic => Accent::Classic,
    }
}

#[derive(Debug, Clone, Copy, PartialEq, Eq, Structural)]
pub struct Palette {
    /// Candidate text.
    pub text: Color,
    /// Translations.
    pub gloss: Color,
    /// Parts of speech, lighter than translations.
    pub pos: Color,
    /// Translations of new words.
    pub fresh: Color,
    /// Index numbers.
    pub index: Color,
    /// The brand colour (from the accent).
    pub accent: Color,
    pub background: Color,
    /// The highlight of the current candidate (from the accent).
    pub highlight: Color,
    /// The hover shade (from the accent).
    pub hover: Color,
}

/// The colours of a light or dark palette with the given accent.
pub open spec fn palette_spec(accent: Accent, dark: bool) -> Palette {
    if dark {
        Palette {
            text: Color { r: 255, g: 255, b: 255, a: 216 },
            gloss: Color { r: 255, g: 255, b: 255, a: 140 },
            pos: Color { r: 255, g: 255, b: 255, a: 63 },
            fresh: Color { r: 255, g: 146, b: 48, a: 255 },
            index: Color { r: 255, g: 255, b: 255, a: 63 },
            accent: brand_spec(accent, true),
            background: Color { r: 30, g: 30, b: 30, a: 255 },
            highlight: highlight_spec(accent, true),
            hover: hover_spec(accent, true),
        }
    } else {
        Palette {
            text: Color { r: 0, g: 0, b: 0, a: 216 },
            gloss: Color { r: 0, g: 0, b: 0, a: 127 },
            pos: Color { r: 0, g: 0, b: 0, a: 66 },
            fresh: Color { r: 255, g: 141, b: 40, a: 255 },
            index: Color { r: 0, g: 0, b: 0, a: 66 },
            accent: brand_spec(accent, false),
            background: Color { r: 255, g: 255, b: 255, a: 255 },
            highlight: highlight_spec(accent, false),
            hover: hover_spec(accent, false),
        }
    }
}

impl Palette {
    /// Light, with the default accent.
    pub fn light() -> (p: Palette)
        ensures
            p == palette_spec(Accent::Qingjian, false),
    {
        Palette::light_with(Accent::Qingjian)
    }

    /// Dark, with the default accent.
    pub fn dark() -> (p: Palette)
        ensures
            p == palette_spec(Accent::Qingjian, true),
    {
        Palette::dark_with(Accent::Qingjian)
    }

    /// Light, with the given accent.
    pub fn light_with(accent: Accent) -> (p: Palette)
        ensures
            p == palette_spec(accent, false),
    {
        Palette {
            text: Color::gray(0, 216),
            gloss: Color::gray(0, 127),
            pos: Color::gray(0, 66),
            fresh: Color::rgb(255, 141, 40),
            index: Color::gray(0, 66),
            accent: accent.brand(false),
            background: Color::rgb(255, 255, 255),
            highlight: accent.highlight(false),
            hover: accent.hover(false),
        }
    }

    /// Dark, with the given accent.
    pub fn dark_with(accent: Accent) -> (p: Palette)
        ensures
            p == palette_spec(accent, true),
    {
        Palette {
            text: Color::gray(255, 216),
            gloss: Color::gray(255, 140),
            pos: Color::gray(255, 63),
            fresh: Color::rgb(255, 146, 48),
            index: Color::gray(255, 63),
            accent: accent.brand(true),
            background: Color::rgb(30, 30, 30),
            highlight: accent.highlight(true),
            hover: accent.hover(true),
        }
    }
}

/// The accent changes only the brand colour, the highlight and the hover shade:
/// two palettes of the same brightness agree on every other colour.
pub proof fn lemma_accent_changes_three_colors(a: Accent, b: Accent, dark: bool)
    ensures
        ({
            let p = palette_spec(a, dark);
            let q = palette_spec(b, dark);
            &&& p.text == q.text
            &&& p.gloss == q.gloss
            &&& p.pos == q.pos
            &&& p.fresh == q.fresh
            &&& p.index == q.index
            &&& p.background == q.background
        }),
{
}

/// The hover shade is never more opaque than the highlight, so the two stay
/// apart when they meet.
pub proof fn lemma_hover_is_lighter_than_highlight(accent: Accent, dark: bool)
    ensures
        hover_spec(accent, dark).a <= highlight_spec(accent, dark).a,
{
}

} // verus!
