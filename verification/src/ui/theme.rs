//! Theming constants for the Glint UI.
use super::{from_rgb, opaque, ThemeColor};
use vstd::prelude::*;

verus! {

/// Dark theme background
pub fn dark_bg() -> (c: ThemeColor)
    ensures
        c == opaque(18, 18, 18),
{
    from_rgb(18, 18, 18)
}

/// Dark theme surface
pub fn dark_surface() -> (c: ThemeColor)
    ensures
        c == opaque(28, 28, 28),
{
    from_rgb(28, 28, 28)
}

/// Dark theme text
pub fn dark_text() -> (c: ThemeColor)
    ensures
        c == opaque(220, 220, 220),
{
    from_rgb(220, 220, 220)
}

/// Dark theme accent
pub fn dark_accent() -> (c: ThemeColor)
    ensures
        c == opaque(70, 130, 255),
{
    from_rgb(70, 130, 255)
}

/// Dark theme secondary text
pub fn dark_text_secondary() -> (c: ThemeColor)
    ensures
        c == opaque(150, 150, 150),
{
    from_rgb(150, 150, 150)
}

/// Light theme background
pub fn light_bg() -> (c: ThemeColor)
    ensures
        c == opaque(240, 240, 240),
{
    from_rgb(240, 240, 240)
}

/// Light theme surface
pub fn light_surface() -> (c: ThemeColor)
    ensures
        c == opaque(255, 255, 255),
{
    from_rgb(255, 255, 255)
}

/// Light theme text
pub fn light_text() -> (c: ThemeColor)
    ensures
        c == opaque(30, 30, 30),
{
    from_rgb(30, 30, 30)
}

/// Light theme accent
pub fn light_accent() -> (c: ThemeColor)
    ensures
        c == opaque(0, 90, 230),
{
    from_rgb(0, 90, 230)
}

/// Light theme secondary text
pub fn light_text_secondary() -> (c: ThemeColor)
    ensures
        c == opaque(100, 100, 100),
{
    from_rgb(100, 100, 100)
}

} // verus!
