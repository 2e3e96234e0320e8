//! The settings model: colour-scheme presets, colour settings and the
//! settings of the application as a whole.

use vstd::prelude::*;
use vstd::string::*;

use crate::color_schemes;
use crate::numeral::{is_numeral, Numeral};
use crate::text::{chars_of, stretch_is};

verus! {

/// The number of entries in a colour palette.
pub const PALETTE_SIZE: usize = 16;

/// A built-in colour scheme, or `Custom` for colours that the user chose one
/// by one.
#[derive(Debug, Clone, Copy, PartialEq, Eq, Structural)]
pub enum ColorSchemePreset {
    GruvboxDark,
    CatppuccinMocha,
    Monokai,
    Nord,
    TokyoNight,
    Custom,
}

impl ColorSchemePreset {
    /// The name under which the preset is listed and stored.
    pub open spec fn spec_name(self) -> Seq<char> {
        match self {
            ColorSchemePreset::GruvboxDark => "GruvboxDark"@,
            ColorSchemePreset::CatppuccinMocha => "CatppuccinMocha"@,
            ColorSchemePreset::Monokai => "Monokai"@,
            ColorSchemePreset::Nord => "Nord"@,
            ColorSchemePreset::TokyoNight => "TokyoNight"@,
            ColorSchemePreset::Custom => "Custom"@,
        }
    }

    /// The preset with the given name. Names are matched exactly, case
    /// included.
    pub open spec fn spec_from_name(name: Seq<char>) -> Option<ColorSchemePreset> {
        if name == "GruvboxDark"@ {
            Some(ColorSchemePreset::GruvboxDark)
        } else if name == "CatppuccinMocha"@ {
            Some(ColorSchemePreset::CatppuccinMocha)
        } else if name == "Monokai"@ {
            Some(ColorSchemePreset::Monokai)
        } else if name == "Nord"@ {
            Some(ColorSchemePreset::Nord)
        } else if name == "TokyoNight"@ {
            Some(ColorSchemePreset::TokyoNight)
        } else if name == "Custom"@ {
            Some(ColorSchemePreset::Custom)
        } else {
            None
        }
    }

    /// The presets in the order in which they are listed.
    pub open spec fn spec_all() -> Seq<ColorSchemePreset> {
        seq![
            ColorSchemePreset::GruvboxDark,
            ColorSchemePreset::CatppuccinMocha,
            ColorSchemePreset::Monokai,
            ColorSchemePreset::Nord,
            ColorSchemePreset::TokyoNight,
            ColorSchemePreset::Custom,
        ]
    }

    /// The name under which the preset is listed and stored.
    pub fn name(&self) -> (r: &'static str)
        ensures
            r@ == self.spec_name(),
    {
        match self {
            ColorSchemePreset::GruvboxDark => "GruvboxDark",
            ColorSchemePreset::CatppuccinMocha => "CatppuccinMocha",
            ColorSchemePreset::Monokai => "Monokai",
            ColorSchemePreset::Nord => "Nord",
            ColorSchemePreset::TokyoNight => "TokyoNight",
            ColorSchemePreset::Custom => "Custom",
        }
    }

    /// Looks a preset up by its name. An unknown name gives `None`.
    pub fn from_name(name: &str) -> (r: Option<Self>)
        ensures
            r == Self::spec_from_name(name@),
    {
        let chars = chars_of(name);
        let n: usize = chars.len();
        proof {
            assert(chars@.subrange(0, n as int) =~= name@);
        }
        if stretch_is(&chars, 0, n, "GruvboxDark") {
            Some(ColorSchemePreset::GruvboxDark)
        } else if stretch_is(&chars, 0, n, "CatppuccinMocha") {
            Some(ColorSchemePreset::CatppuccinMocha)
        } else if stretch_is(&chars, 0, n, "Monokai") {
            Some(ColorSchemePreset::Monokai)
        } else if stretch_is(&chars, 0, n, "Nord") {
            Some(ColorSchemePreset::Nord)
        } else if stretch_is(&chars, 0, n, "TokyoNight") {
            Some(ColorSchemePreset::TokyoNight)
        } else if stretch_is(&chars, 0, n, "Custom") {
            Some(ColorSchemePreset::Custom)
        } else {
            None
        }
    }

    /// All presets, in the order in which they are listed.
    pub fn all_presets() -> (r: Vec<Self>)
        ensures
            r@ == Self::spec_all(),
    {
        let r = vec![
            ColorSchemePreset::GruvboxDark,
            ColorSchemePreset::CatppuccinMocha,
            ColorSchemePreset::Monokai,
            ColorSchemePreset::Nord,
            ColorSchemePreset::TokyoNight,
            ColorSchemePreset::Custom,
        ];
        assert(r@ =~= Self::spec_all());
        r
    }
}

/// The name of a preset finds that preset again, and with it the same
/// colours.
pub proof fn law_preset_name_round_trip(preset: ColorSchemePreset)
    ensures
        ColorSchemePreset::spec_from_name(preset.spec_name()) == Some(preset),
        preset_colors(ColorSchemePreset::spec_from_name(preset.spec_name()).unwrap())
            == preset_colors(preset),
{
    reveal_strlit("GruvboxDark");
    reveal_strlit("CatppuccinMocha");
    reveal_strlit("Monokai");
    reveal_strlit("Nord");
    reveal_strlit("TokyoNight");
    reveal_strlit("Custom");
    assert("GruvboxDark"@.len() == 11);
    assert("CatppuccinMocha"@.len() == 15);
    assert("Monokai"@.len() == 7);
    assert("Nord"@.len() == 4);
    assert("TokyoNight"@.len() == 10);
    assert("Custom"@.len() == 6);
}

/// Every preset is listed, and listed once.
pub proof fn law_presets_listed_once(preset: ColorSchemePreset)
    ensures
        ColorSchemePreset::spec_all().contains(preset),
        ColorSchemePreset::spec_all().no_duplicates(),
{
    let all = ColorSchemePreset::spec_all();
    match preset {
        ColorSchemePreset::GruvboxDark => assert(all[0] == preset),
        ColorSchemePreset::CatppuccinMocha => assert(all[1] == preset),
        ColorSchemePreset::Monokai => assert(all[2] == preset),
        ColorSchemePreset::Nord => assert(all[3] == preset),
        ColorSchemePreset::TokyoNight => assert(all[4] == preset),
        ColorSchemePreset::Custom => assert(all[5] == preset),
    }
}

/// The text of an optional string.
pub open spec fn text_of(value: Option<String>) -> Option<Seq<char>> {
    match value {
        Some(s) => Some(s@),
        None => None,
    }
}

/// The text of an optional numeral.
pub open spec fn numeral_of(value: Option<Numeral>) -> Option<Seq<char>> {
    match value {
        Some(n) => Some(n@),
        None => None,
    }
}

/// The texts of the entries of a palette.
pub open spec fn palette_of(palette: Seq<Option<String>>) -> Seq<Option<Seq<char>>> {
    Seq::new(palette.len(), |i: int| text_of(palette[i]))
}

/// The colours of a terminal as mathematical values: what a
/// [`ColorSettings`] holds.
pub ghost struct ColorBundle {
    pub foreground: Option<Seq<char>>,
    pub background: Option<Seq<char>>,
    pub background_opacity: Option<Seq<char>>,
    pub palette: Seq<Option<Seq<char>>>,
    pub active_preset: Option<Seq<char>>,
}

impl ColorBundle {
    /// The bundle in which nothing is set.
    pub open spec fn unset() -> ColorBundle {
        ColorBundle {
            foreground: None,
            background: None,
            background_opacity: None,
            palette: Seq::new(PALETTE_SIZE as nat, |i: int| None),
            active_preset: None,
        }
    }

    /// Whether the bundle has the shape of a [`ColorSettings`]: a palette of
    /// [`PALETTE_SIZE`] entries, and an opacity that is a numeral.
    pub open spec fn well_formed(self) -> bool {
        &&& self.palette.len() == PALETTE_SIZE
        &&& self.background_opacity matches Some(opacity) ==> is_numeral(opacity)
    }
}

/// The colours of the terminal. Each colour is kept as the text that names
/// it; a field that is `None` leaves the terminal's own colour in place.
#[derive(Debug, Clone)]
pub struct ColorSettings {
    /// The colour of text.
    pub foreground: Option<String>,
    /// The colour behind text.
    pub background: Option<String>,
    /// How opaque the background is, from 0 (clear) to 1 (solid).
    pub background_opacity: Option<Numeral>,
    /// The sixteen ANSI colours.
    pub palette: Vec<Option<String>>,
    /// The name of the preset that the colours come from, if any.
    pub active_preset: Option<String>,
}

impl View for ColorSettings {
    type V = ColorBundle;

    open spec fn view(&self) -> ColorBundle {
        ColorBundle {
            foreground: text_of(self.foreground),
            background: text_of(self.background),
            background_opacity: numeral_of(self.background_opacity),
            palette: palette_of(self.palette@),
            active_preset: text_of(self.active_preset),
        }
    }
}

impl Default for ColorSettings {
    /// Colour settings in which nothing is set.
    fn default() -> (r: Self)
        ensures
            r@ == ColorBundle::unset(),
    {
        let mut palette: Vec<Option<String>> = Vec::new();
        let mut i: usize = 0;
        while i < PALETTE_SIZE
            invariant
                i <= PALETTE_SIZE,
                palette@.len() == i,
                forall|j: int| 0 <= j < i ==> palette@[j] is None,
            decreases PALETTE_SIZE - i,
        {
            palette.push(None);
            i += 1;
        }
        let r = ColorSettings {
            foreground: None,
            background: None,
            background_opacity: None,
            palette,
            active_preset: None,
        };
        assert(r@.palette =~= ColorBundle::unset().palette);
        r
    }
}

/// The settings of the application as mathematical values: what an
/// [`AppSettings`] holds.
pub ghost struct SettingsModel {
    pub title_bar_visible: bool,
    pub font_family: Seq<char>,
    pub font_size: Seq<char>,
    pub colors: ColorBundle,
}

impl SettingsModel {
    /// The settings of an application that has stored none: the title bar
    /// shows, the font is `Monospace` at size 12, and no colour is set.
    pub open spec fn initial() -> SettingsModel {
        SettingsModel {
            title_bar_visible: true,
            font_family: "Monospace"@,
            font_size: "12"@,
            colors: ColorBundle::unset(),
        }
    }

    /// Whether the model has the shape of an [`AppSettings`]: well-formed
    /// colours, and a font size that is a numeral.
    pub open spec fn well_formed(self) -> bool {
        &&& self.colors.well_formed()
        &&& is_numeral(self.font_size)
    }
}

/// The settings of the application.
#[derive(Debug, Clone)]
pub struct AppSettings {
    /// Whether the window shows its title bar.
    pub title_bar_visible: bool,
    /// The family of the terminal's font.
    pub font_family: String,
    /// The size of the terminal's font, in points.
    pub font_size: Numeral,
    /// The colours of the terminal.
    pub colors: ColorSettings,
}

impl View for AppSettings {
    type V = SettingsModel;

    open spec fn view(&self) -> SettingsModel {
        SettingsModel {
            title_bar_visible: self.title_bar_visible,
            font_family: self.font_family@,
            font_size: self.font_size@,
            colors: self.colors@,
        }
    }
}

/// The text `12` is a numeral.
pub proof fn lemma_twelve_is_numeral()
    ensures
        is_numeral("12"@),
{
    reveal_strlit("12");
    let s = "12"@;
    assert(s.len() == 2 && s[0] == '1' && s[1] == '2');
    reveal_with_fuel(crate::numeral::digits_end, 4);
}

impl Default for AppSettings {
    /// The settings of an application that has stored none.
    fn default() -> (r: Self)
        ensures
            r@ == SettingsModel::initial(),
    {
        proof {
            lemma_twelve_is_numeral();
        }
        AppSettings {
            title_bar_visible: true,
            font_family: String::from_str("Monospace"),
            font_size: Numeral::parse("12").unwrap(),
            colors: ColorSettings::default(),
        }
    }
}

/// The colours of a built-in scheme, without the name of the preset.
pub open spec fn scheme_colors(preset: ColorSchemePreset) -> ColorBundle {
    match preset {
        ColorSchemePreset::GruvboxDark => color_schemes::gruvbox_dark::colors(),
        ColorSchemePreset::CatppuccinMocha => color_schemes::catppuccin_mocha::colors(),
        ColorSchemePreset::Monokai => color_schemes::monokai::colors(),
        ColorSchemePreset::Nord => color_schemes::nord::colors(),
        ColorSchemePreset::TokyoNight => color_schemes::tokyo_night::colors(),
        ColorSchemePreset::Custom => ColorBundle::unset(),
    }
}

/// The colours of a preset: those of its scheme, marked with the preset's
/// name. `Custom` sets no colour.
pub open spec fn preset_colors(preset: ColorSchemePreset) -> ColorBundle {
    ColorBundle { active_preset: Some(preset.spec_name()), ..scheme_colors(preset) }
}

/// The colours of a preset, marked with the preset's name.
pub fn get_preset_colors(preset: &ColorSchemePreset) -> (r: ColorSettings)
    ensures
        r@ == preset_colors(*preset),
{
    let mut settings = match preset {
        ColorSchemePreset::GruvboxDark => color_schemes::gruvbox_dark::get_colors(),
        ColorSchemePreset::CatppuccinMocha => color_schemes::catppuccin_mocha::get_colors(),
        ColorSchemePreset::Monokai => color_schemes::monokai::get_colors(),
        ColorSchemePreset::Nord => color_schemes::nord::get_colors(),
        ColorSchemePreset::TokyoNight => color_schemes::tokyo_night::get_colors(),
        ColorSchemePreset::Custom => ColorSettings::default(),
    };
    settings.active_preset = Some(String::from_str(preset.name()));
    settings
}

/// Every preset's colours are well formed.
pub proof fn lemma_preset_colors_well_formed(preset: ColorSchemePreset)
    ensures
        preset_colors(preset).well_formed(),
{
    color_schemes::lemma_one_is_numeral();
}

/// The directory of the settings file, below the home directory.
pub const CONFIG_DIR: &'static str = ".config/better-terminal";

/// The name of the settings file.
pub const CONFIG_FILE: &'static str = "better-terminal.conf";

/// `base` with `part` below it: the two joined by one `/`, which is left out
/// where `base` is empty or ends with one already.
pub open spec fn path_below(base: Seq<char>, part: Seq<char>) -> Seq<char> {
    if base.len() == 0 || base.last() == '/' {
        base + part
    } else {
        base + seq!['/'] + part
    }
}

/// The path of the settings file of a user whose home directory is `home`.
pub open spec fn config_path(home: Seq<char>) -> Seq<char> {
    path_below(path_below(home, CONFIG_DIR@), CONFIG_FILE@)
}

/// `base` with `part` below it.
pub fn join_path(base: String, part: &str) -> (r: String)
    ensures
        r@ == path_below(base@, part@),
{
    let chars = chars_of(base.as_str());
    let n: usize = chars.len();
    if n == 0 || chars[n - 1] == '/' {
        base.concat(part)
    } else {
        proof {
            reveal_strlit("/");
            assert("/"@ =~= seq!['/']);
        }
        base.concat("/").concat(part)
    }
}

/// The path of the settings file of a user whose home directory is `home`.
pub fn config_path_in(home: &str) -> (r: String)
    ensures
        r@ == config_path(home@),
{
    join_path(join_path(String::from_str(home), CONFIG_DIR), CONFIG_FILE)
}

/// The home directory of the current user, as `dirs::home_dir` finds it from
/// the environment and the user database. Nothing is claimed of the result:
/// it may be any directory, or none. A directory whose name is not valid
/// Unicode counts as none.
#[verifier::external_body]
fn home_dir() -> (r: Option<String>) {
    match dirs::home_dir() {
        Some(path) => path.into_os_string().into_string().ok(),
        None => None,
    }
}

/// The path of the settings file of the current user, or `None` where the
/// user has no home directory. Whatever the home directory is, the path is
/// the one that [`config_path`] gives for it.
pub fn get_config_path() -> (r: Option<String>)
    ensures
        r matches Some(path) ==> exists|home: Seq<char>| path@ == config_path(home),
{
    let home = home_dir();
    let ghost found = text_of(home);
    let path = config_path_for(home);
    assert(path matches Some(p) ==> p@ == config_path(found.unwrap()));
    path
}

/// The path of the settings file for what was found as the home directory:
/// the file below that directory where one was found, and `None` where none
/// was.
pub open spec fn config_path_of(home: Option<Seq<char>>) -> Option<Seq<char>> {
    match home {
        Some(h) => Some(config_path(h)),
        None => None,
    }
}

/// The path of the settings file for what was found as the home directory.
pub fn config_path_for(home: Option<String>) -> (r: Option<String>)
    ensures
        text_of(r) == config_path_of(text_of(home)),
{
    match home {
        Some(h) => Some(config_path_in(h.as_str())),
        None => None,
    }
}

} // verus!
