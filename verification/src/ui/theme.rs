use vstd::prelude::*;

verus! {

#[derive(Clone, Copy, Debug, PartialEq, Eq, Structural)]
pub enum Theme {
    Forest,
    Amber,
    Mono,
    Solarized,
}

/// The themes in the order `next` cycles through them.
pub open spec fn theme_cycle() -> Seq<Theme> {
    seq![Theme::Forest, Theme::Amber, Theme::Mono, Theme::Solarized]
}

impl Theme {
    pub const ALL: [Self; 4] = [Self::Forest, Self::Amber, Self::Mono, Self::Solarized];

    /// The position of this theme in the cycle.
    pub open spec fn index(self) -> int {
        match self {
            Theme::Forest => 0,
            Theme::Amber => 1,
            Theme::Mono => 2,
            Theme::Solarized => 3,
        }
    }

    /// The theme after this one, wrapping from the last to the first.
    pub fn next(self) -> (r: Self)
        ensures
            r == theme_cycle()[(self.index() + 1) % 4],
    {
        match self {
            Theme::Forest => Theme::Amber,
            Theme::Amber => Theme::Mono,
            Theme::Mono => Theme::Solarized,
            Theme::Solarized => Theme::Forest,
        }
    }

    pub fn label(self) -> (r: &'static str)
        ensures
            r@ == theme_label(self),
    {
        match self {
            Theme::Forest => "Forest",
            Theme::Amber => "Amber",
            Theme::Mono => "Mono",
            Theme::Solarized => "Solarized",
        }
    }
}

pub open spec fn theme_label(t: Theme) -> Seq<char> {
    match t {
        Theme::Forest => "Forest"@,
        Theme::Amber => "Amber"@,
        Theme::Mono => "Mono"@,
        Theme::Solarized => "Solarized"@,
    }
}

/// Four steps of `next` come back to the starting theme, visiting every theme once.
pub proof fn lemma_theme_cycle_visits_all(t: Theme)
    ensures
        theme_cycle()[t.index()] == t,
        forall|i: int, j: int| 0 <= i < j < 4 ==> theme_cycle()[i] != theme_cycle()[j],
        theme_cycle()[(t.index() + 4) % 4] == t,
{
}

/// A 24-bit color.
#[derive(Clone, Copy, Debug, PartialEq, Eq, Structural)]
pub struct Rgb(pub u8, pub u8, pub u8);

/// The colors a theme gives each role, and how danger is marked besides its color.
#[derive(Clone, Copy, Debug, PartialEq, Eq, Structural)]
pub struct Palette {
    pub bg: Rgb,
    pub surface: Rgb,
    pub surface_alt: Rgb,
    pub border: Rgb,
    pub border_focus: Rgb,
    pub text: Rgb,
    pub text_muted: Rgb,
    pub accent: Rgb,
    pub accent_fg: Rgb,
    pub selection_bg: Rgb,
    pub selection_fg: Rgb,
    pub ok: Rgb,
    pub warn: Rgb,
    pub danger: Rgb,
    pub info: Rgb,
    pub chart_rx: Rgb,
    pub chart_tx: Rgb,
    /// Danger text is drawn bold.
    pub danger_bold: bool,
    /// Danger text is drawn in reverse video.
    pub danger_reversed: bool,
}

/// The nine base colors of a theme, and its danger marking.
pub struct ThemeBase {
    pub bg: Rgb,
    pub surface: Rgb,
    pub border: Rgb,
    pub text: Rgb,
    pub muted: Rgb,
    pub accent: Rgb,
    pub ok: Rgb,
    pub warn: Rgb,
    pub danger: Rgb,
    pub danger_bold: bool,
    pub danger_reversed: bool,
}

/// The base colors of each theme.
pub open spec fn theme_base(t: Theme) -> ThemeBase {
    match t {
        Theme::Forest => ThemeBase {
            bg: Rgb(9, 13, 10),
            surface: Rgb(19, 26, 20),
            border: Rgb(66, 78, 56),
            text: Rgb(232, 235, 216),
            muted: Rgb(148, 158, 135),
            accent: Rgb(164, 191, 101),
            ok: Rgb(137, 207, 138),
            warn: Rgb(235, 194, 91),
            danger: Rgb(232, 117, 100),
            danger_bold: true,
            danger_reversed: false,
        },
        Theme::Amber => ThemeBase {
            bg: Rgb(20, 16, 10),
            surface: Rgb(31, 25, 16),
            border: Rgb(92, 68, 35),
            text: Rgb(245, 232, 202),
            muted: Rgb(164, 145, 112),
            accent: Rgb(235, 181, 74),
            ok: Rgb(183, 205, 119),
            warn: Rgb(245, 194, 78),
            danger: Rgb(232, 117, 84),
            danger_bold: true,
            danger_reversed: false,
        },
        Theme::Mono => ThemeBase {
            bg: Rgb(12, 12, 12),
            surface: Rgb(25, 25, 25),
            border: Rgb(82, 82, 82),
            text: Rgb(235, 235, 235),
            muted: Rgb(158, 158, 158),
            accent: Rgb(210, 210, 210),
            ok: Rgb(205, 205, 205),
            warn: Rgb(235, 235, 235),
            danger: Rgb(255, 255, 255),
            danger_bold: true,
            danger_reversed: true,
        },
        Theme::Solarized => ThemeBase {
            bg: Rgb(0, 43, 54),
            surface: Rgb(7, 54, 66),
            border: Rgb(42, 94, 104),
            text: Rgb(238, 232, 213),
            muted: Rgb(147, 161, 161),
            accent: Rgb(181, 137, 0),
            ok: Rgb(133, 153, 0),
            warn: Rgb(203, 75, 22),
            danger: Rgb(220, 50, 47),
            danger_bold: true,
            danger_reversed: false,
        },
    }
}

/// How the base colors fill the roles: surfaces share the surface color, focus,
/// selection and the sent-traffic chart take the accent, text on them the background,
/// and information and the received-traffic chart take the ok color.
pub open spec fn palette_from(b: ThemeBase) -> Palette {
    Palette {
        bg: b.bg,
        surface: b.surface,
        surface_alt: b.surface,
        border: b.border,
        border_focus: b.accent,
        text: b.text,
        text_muted: b.muted,
        accent: b.accent,
        accent_fg: b.bg,
        selection_bg: b.accent,
        selection_fg: b.bg,
        ok: b.ok,
        warn: b.warn,
        danger: b.danger,
        info: b.ok,
        chart_rx: b.ok,
        chart_tx: b.accent,
        danger_bold: b.danger_bold,
        danger_reversed: b.danger_reversed,
    }
}

impl ThemeBase {
    fn palette(self) -> (r: Palette)
        ensures
            r == palette_from(self),
    {
        Palette {
            bg: self.bg,
            surface: self.surface,
            surface_alt: self.surface,
            border: self.border,
            border_focus: self.accent,
            text: self.text,
            text_muted: self.muted,
            accent: self.accent,
            accent_fg: self.bg,
            selection_bg: self.accent,
            selection_fg: self.bg,
            ok: self.ok,
            warn: self.warn,
            danger: self.danger,
            info: self.ok,
            chart_rx: self.ok,
            chart_tx: self.accent,
            danger_bold: self.danger_bold,
            danger_reversed: self.danger_reversed,
        }
    }
}

impl Theme {
    /// The colors of this theme.
    pub fn palette(self) -> (r: Palette)
        ensures
            r == palette_from(theme_base(self)),
    {
        let base = match self {
            Theme::Forest => ThemeBase {
                bg: Rgb(9, 13, 10),
                surface: Rgb(19, 26, 20),
                border: Rgb(66, 78, 56),
                text: Rgb(232, 235, 216),
                muted: Rgb(148, 158, 135),
                accent: Rgb(164, 191, 101),
                ok: Rgb(137, 207, 138),
                warn: Rgb(235, 194, 91),
                danger: Rgb(232, 117, 100),
                danger_bold: true,
                danger_reversed: false,
            },
            Theme::Amber => ThemeBase {
                bg: Rgb(20, 16, 10),
                surface: Rgb(31, 25, 16),
                border: Rgb(92, 68, 35),
                text: Rgb(245, 232, 202),
                muted: Rgb(164, 145, 112),
                accent: Rgb(235, 181, 74),
                ok: Rgb(183, 205, 119),
                warn: Rgb(245, 194, 78),
                danger: Rgb(232, 117, 84),
                danger_bold: true,
                danger_reversed: false,
            },
            Theme::Mono => ThemeBase {
                bg: Rgb(12, 12, 12),
                surface: Rgb(25, 25, 25),
                border: Rgb(82, 82, 82),
                text: Rgb(235, 235, 235),
                muted: Rgb(158, 158, 158),
                accent: Rgb(210, 210, 210),
                ok: Rgb(205, 205, 205),
                warn: Rgb(235, 235, 235),
                danger: Rgb(255, 255, 255),
                danger_bold: true,
                danger_reversed: true,
            },
            Theme::Solarized => ThemeBase {
                bg: Rgb(0, 43, 54),
                surface: Rgb(7, 54, 66),
                border: Rgb(42, 94, 104),
                text: Rgb(238, 232, 213),
                muted: Rgb(147, 161, 161),
                accent: Rgb(181, 137, 0),
                ok: Rgb(133, 153, 0),
                warn: Rgb(203, 75, 22),
                danger: Rgb(220, 50, 47),
                danger_bold: true,
                danger_reversed: false,
            },
        };
        base.palette()
    }
}

/// In every theme danger can be told from ordinary text: by its color, or, where the
/// two colors agree, by reverse video; and it is always bold.
pub proof fn lemma_danger_stands_out(t: Theme)
    ensures
        palette_from(theme_base(t)).danger != palette_from(theme_base(t)).text
            || palette_from(theme_base(t)).danger_reversed,
        palette_from(theme_base(t)).danger_bold,
{
}

} // verus!
