use vstd::prelude::*;

verus! {

/// An RGBA color; `a` is the opacity, 0 transparent to 255 opaque.
#[derive(Clone, Copy, Debug, PartialEq, Eq, Structural)]
pub struct Color {
    pub r: u8,
    pub g: u8,
    pub b: u8,
    pub a: u8,
}

impl Color {
    pub open spec fn opaque_black() -> Color {
        Color { r: 0, g: 0, b: 0, a: 255 }
    }

    /// Opaque black.
    pub fn black() -> (c: Color)
        ensures
            c == Color::opaque_black(),
    {
        Color { r: 0, g: 0, b: 0, a: 255 }
    }
}

/// Stroke settings, set together.
#[derive(Clone, Copy, Debug, PartialEq, Eq, Structural)]
pub struct StrokeParameters {
    pub width: u16,
    pub color: Color,
}

/// Fill settings, set together.
#[derive(Clone, Copy, Debug, PartialEq, Eq, Structural)]
pub struct FillParameters {
    pub color: Color,
}

/// The style that fill and stroke calls read.
#[derive(Clone, Copy, Debug, PartialEq, Eq, Structural)]
pub struct StyleState {
    pub stroke_color: Color,
    pub stroke_width: u16,
    pub fill_color: Color,
}

impl StyleState {
    pub open spec fn initial() -> StyleState {
        StyleState {
            stroke_color: Color::opaque_black(),
            stroke_width: 1,
            fill_color: Color::opaque_black(),
        }
    }

    /// Black stroke of width 1, black fill.
    pub fn new() -> (s: StyleState)
        ensures
            s == StyleState::initial(),
    {
        StyleState { stroke_color: Color::black(), stroke_width: 1, fill_color: Color::black() }
    }
}

} // verus!
