pub mod theme;

use vstd::prelude::*;

verus! {

/// The one character that an icon shows.
pub open spec fn symbol_char(i: Icon) -> char {
    match i {
        Icon::Open => '\u{2191}',
        Icon::Folder => '\u{25A1}',
        Icon::Prev => '\u{2190}',
        Icon::Next => '\u{2192}',
        Icon::ZoomIn => '+',
        Icon::ZoomOut => '\u{2212}',
        Icon::Fit => '\u{2194}',
        Icon::Gallery => '\u{25A6}',
        Icon::Editor => '\u{270E}',
        Icon::Slideshow => '\u{25B6}',
        Icon::Fullscreen => '\u{26F6}',
        Icon::RotateLeft => '\u{21BA}',
        Icon::RotateRight => '\u{21BB}',
        Icon::ThemeDark => '\u{263E}',
        Icon::ThemeLight => '\u{2600}',
    }
}

/// Each icon's symbol is a single character, and different icons show different symbols.
pub proof fn law_icon_symbols_distinct(a: Icon, b: Icon)
    ensures
        a.spec_symbol() == seq![symbol_char(a)],
        a.spec_symbol().len() == 1,
        a != b ==> a.spec_symbol() != b.spec_symbol(),
{
    reveal_strlit("\u{2191}");
    reveal_strlit("\u{25A1}");
    reveal_strlit("\u{2190}");
    reveal_strlit("\u{2192}");
    reveal_strlit("+");
    reveal_strlit("\u{2212}");
    reveal_strlit("\u{2194}");
    reveal_strlit("\u{25A6}");
    reveal_strlit("\u{270E}");
    reveal_strlit("\u{25B6}");
    reveal_strlit("\u{26F6}");
    reveal_strlit("\u{21BA}");
    reveal_strlit("\u{21BB}");
    reveal_strlit("\u{263E}");
    reveal_strlit("\u{2600}");
    assert(a.spec_symbol() =~= seq![symbol_char(a)]);
    assert(b.spec_symbol() =~= seq![symbol_char(b)]);
    if a != b {
        assert(a.spec_symbol()[0] != b.spec_symbol()[0]);
    }
}

/// Icon identifiers for all toolbar/UI icons
#[derive(Debug, Clone, Copy, PartialEq, Eq, Hash, Structural)]
pub enum Icon {
    Open,
    Folder,
    Prev,
    Next,
    ZoomIn,
    ZoomOut,
    Fit,
    Gallery,
    Editor,
    Slideshow,
    Fullscreen,
    RotateLeft,
    RotateRight,
    ThemeDark,
    ThemeLight,
}

impl Icon {
    pub open spec fn spec_symbol(&self) -> Seq<char> {
        match self {
            Icon::Open => "\u{2191}"@,
            Icon::Folder => "\u{25A1}"@,
            Icon::Prev => "\u{2190}"@,
            Icon::Next => "\u{2192}"@,
            Icon::ZoomIn => "+"@,
            Icon::ZoomOut => "\u{2212}"@,
            Icon::Fit => "\u{2194}"@,
            Icon::Gallery => "\u{25A6}"@,
            Icon::Editor => "\u{270E}"@,
            Icon::Slideshow => "\u{25B6}"@,
            Icon::Fullscreen => "\u{26F6}"@,
            Icon::RotateLeft => "\u{21BA}"@,
            Icon::RotateRight => "\u{21BB}"@,
            Icon::ThemeDark => "\u{263E}"@,
            Icon::ThemeLight => "\u{2600}"@,
        }
    }

    /// Get the text label for this icon: one symbol that common UI fonts render.
    pub fn symbol(&self) -> (r: &'static str)
        ensures
            r@ == self.spec_symbol(),
    {
        match self {
            Icon::Open => "\u{2191}",
            Icon::Folder => "\u{25A1}",
            Icon::Prev => "\u{2190}",
            Icon::Next => "\u{2192}",
            Icon::ZoomIn => "+",
            Icon::ZoomOut => "\u{2212}",
            Icon::Fit => "\u{2194}",
            Icon::Gallery => "\u{25A6}",
            Icon::Editor => "\u{270E}",
            Icon::Slideshow => "\u{25B6}",
            Icon::Fullscreen => "\u{26F6}",
            Icon::RotateLeft => "\u{21BA}",
            Icon::RotateRight => "\u{21BB}",
            Icon::ThemeDark => "\u{263E}",
            Icon::ThemeLight => "\u{2600}",
        }
    }

    /// The icon for the theme toggle: light for "Light", dark for every other theme name.
    pub fn for_theme_name(theme_name: &str) -> (r: Icon)
        ensures
            r == (if theme_name@ == "Light"@ { Icon::ThemeLight } else { Icon::ThemeDark }),
    {
        if crate::text::str_eq(theme_name, "Light") {
            Icon::ThemeLight
        } else {
            Icon::ThemeDark
        }
    }
}

/// An RGBA color with premultiplied alpha, one byte per channel.
#[derive(Debug, Clone, Copy, PartialEq, Eq, Structural)]
pub struct ThemeColor {
    pub r: u8,
    pub g: u8,
    pub b: u8,
    pub a: u8,
}

/// An opaque color.
pub open spec fn opaque(r: u8, g: u8, b: u8) -> ThemeColor {
    ThemeColor { r, g, b, a: 255 }
}

/// An opaque color from its red, green and blue bytes.
pub fn from_rgb(r: u8, g: u8, b: u8) -> (c: ThemeColor)
    ensures
        c == opaque(r, g, b),
{
    ThemeColor { r, g, b, a: 255 }
}

/// Application theme
#[derive(Debug, Clone, Copy, PartialEq, Eq, Structural)]
pub enum AppTheme {
    Dark,
    Light,
    Amoled,
}

impl AppTheme {
    /// The theme after this one in the cycle Dark, Light, Amoled.
    pub open spec fn spec_next(&self) -> AppTheme {
        match self {
            AppTheme::Dark => AppTheme::Light,
            AppTheme::Light => AppTheme::Amoled,
            AppTheme::Amoled => AppTheme::Dark,
        }
    }

    /// Get the background color for this theme
    pub fn background_color(&self) -> (c: ThemeColor)
        ensures
            c == match self {
                AppTheme::Dark => opaque(18, 18, 18),
                AppTheme::Light => opaque(240, 240, 240),
                AppTheme::Amoled => opaque(0, 0, 0),
            },
    {
        match self {
            AppTheme::Dark => theme::dark_bg(),
            AppTheme::Light => theme::light_bg(),
            AppTheme::Amoled => from_rgb(0, 0, 0),
        }
    }

    /// Get the surface color for this theme
    pub fn surface_color(&self) -> (c: ThemeColor)
        ensures
            c == match self {
                AppTheme::Dark => opaque(28, 28, 28),
                AppTheme::Light => opaque(255, 255, 255),
                AppTheme::Amoled => opaque(5, 5, 5),
            },
    {
        match self {
            AppTheme::Dark => theme::dark_surface(),
            AppTheme::Light => theme::light_surface(),
            AppTheme::Amoled => from_rgb(5, 5, 5),
        }
    }

    /// Get the text color for this theme
    pub fn text_color(&self) -> (c: ThemeColor)
        ensures
            c == match self {
                AppTheme::Light => opaque(30, 30, 30),
                _ => opaque(220, 220, 220),
            },
    {
        match self {
            AppTheme::Dark | AppTheme::Amoled => theme::dark_text(),
            AppTheme::Light => theme::light_text(),
        }
    }

    /// Get the accent color for this theme
    pub fn accent_color(&self) -> (c: ThemeColor)
        ensures
            c == match self {
                AppTheme::Light => opaque(0, 90, 230),
                _ => opaque(70, 130, 255),
            },
    {
        match self {
            AppTheme::Dark | AppTheme::Amoled => theme::dark_accent(),
            AppTheme::Light => theme::light_accent(),
        }
    }

    /// Get the secondary text color for this theme
    pub fn text_secondary_color(&self) -> (c: ThemeColor)
        ensures
            c == match self {
                AppTheme::Light => opaque(100, 100, 100),
                _ => opaque(150, 150, 150),
            },
    {
        match self {
            AppTheme::Dark | AppTheme::Amoled => theme::dark_text_secondary(),
            AppTheme::Light => theme::light_text_secondary(),
        }
    }

    /// Whether the theme uses dark visuals
    pub fn is_dark(&self) -> (r: bool)
        ensures
            r == (*self == AppTheme::Dark || *self == AppTheme::Amoled),
    {
        match self {
            AppTheme::Dark | AppTheme::Amoled => true,
            AppTheme::Light => false,
        }
    }

    /// The next theme in the cycle Dark, Light, Amoled, Dark.
    pub fn next(&self) -> (r: AppTheme)
        ensures
            r == self.spec_next(),
    {
        match self {
            AppTheme::Dark => AppTheme::Light,
            AppTheme::Light => AppTheme::Amoled,
            AppTheme::Amoled => AppTheme::Dark,
        }
    }

    /// The theme's display name
    pub fn name(&self) -> (r: &'static str)
        ensures
            r@ == match self {
                AppTheme::Dark => "Dark"@,
                AppTheme::Light => "Light"@,
                AppTheme::Amoled => "Amoled"@,
            },
    {
        match self {
            AppTheme::Dark => "Dark",
            AppTheme::Light => "Light",
            AppTheme::Amoled => "Amoled",
        }
    }
}

impl Default for AppTheme {
    fn default() -> (r: Self)
        ensures
            r == AppTheme::Dark,
    {
        AppTheme::Dark
    }
}

/// Cycling the theme three times returns to the theme one started with.
pub proof fn law_theme_cycle(t: AppTheme)
    ensures
        t.spec_next().spec_next().spec_next() == t,
        t.spec_next() != t,
{
}

/// Main toolbar state
pub struct ToolbarPanel {
    pub is_gallery_active: bool,
    pub is_editor_active: bool,
}

impl ToolbarPanel {
    pub fn new() -> (r: Self)
        ensures
            !r.is_gallery_active,
            !r.is_editor_active,
    {
        ToolbarPanel { is_gallery_active: false, is_editor_active: false }
    }

    /// Flip the gallery toggle.
    pub fn toggle_gallery(&mut self)
        ensures
            final(self).is_gallery_active == !old(self).is_gallery_active,
            final(self).is_editor_active == old(self).is_editor_active,
    {
        self.is_gallery_active = !self.is_gallery_active;
    }

    /// Flip the editor toggle.
    pub fn toggle_editor(&mut self)
        ensures
            final(self).is_editor_active == !old(self).is_editor_active,
            final(self).is_gallery_active == old(self).is_gallery_active,
    {
        self.is_editor_active = !self.is_editor_active;
    }
}

} // verus!
