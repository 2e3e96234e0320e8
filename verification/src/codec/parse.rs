//! Reading settings from their text.
//!
//! The text is read line by line, from the defaults on. A line with a known
//! key sets the field that the key names; every other line is passed over.
//! Once a line has named a known preset, the colours are those of the preset
//! and later colour lines change nothing.

use vstd::prelude::*;
use vstd::string::*;

use crate::codec::{entry_at, recognized, Key};
use crate::config::{
    get_preset_colors, preset_colors, AppSettings, ColorBundle, ColorSchemePreset, ColorSettings,
    SettingsModel,
};
use crate::numeral::{is_numeral, Numeral};
use crate::text::{chars_of, lines_of, same_text, split_lines, stretch_of, texts};

verus! {

/// What has been read so far: the settings, and whether a line has named a
/// known preset.
pub ghost struct Reading {
    pub settings: SettingsModel,
    pub preset_active: bool,
}

impl Reading {
    /// The state before the first line: the defaults, and no preset.
    pub open spec fn start() -> Reading {
        Reading { settings: SettingsModel::initial(), preset_active: false }
    }

    /// The state with other colours.
    pub open spec fn with_colors(self, colors: ColorBundle) -> Reading {
        Reading { settings: SettingsModel { colors, ..self.settings }, ..self }
    }
}

/// The colours after a line `active_preset = name`. A known preset replaces
/// all colours by its own; any name is kept as the name of the preset.
pub open spec fn select_preset(colors: ColorBundle, name: Seq<char>) -> ColorBundle {
    match ColorSchemePreset::spec_from_name(name) {
        Some(preset) => ColorBundle { active_preset: Some(name), ..preset_colors(preset) },
        None => ColorBundle { active_preset: Some(name), ..colors },
    }
}

/// The colours after a colour line that is no preset line, while no preset
/// is active.
pub open spec fn set_color(colors: ColorBundle, key: Key, value: Seq<char>) -> ColorBundle {
    match key {
        Key::Foreground => ColorBundle { foreground: Some(value), ..colors },
        Key::Background => ColorBundle { background: Some(value), ..colors },
        Key::BackgroundOpacity => if is_numeral(value) {
            ColorBundle { background_opacity: Some(value), ..colors }
        } else {
            colors
        },
        Key::Color(index) => ColorBundle {
            palette: colors.palette.update(index as int, Some(value)),
            ..colors
        },
        _ => colors,
    }
}

/// The state after a line with the key `key` and the value `value`.
pub open spec fn apply_entry(state: Reading, key: Key, value: Seq<char>) -> Reading {
    let settings = state.settings;
    match key {
        Key::TitleBar => Reading {
            settings: SettingsModel { title_bar_visible: value == "true"@, ..settings },
            ..state
        },
        Key::ActivePreset => Reading {
            settings: SettingsModel {
                colors: select_preset(settings.colors, value),
                ..settings
            },
            preset_active: state.preset_active || ColorSchemePreset::spec_from_name(value)
                is Some,
        },
        Key::FontFamily => Reading {
            settings: SettingsModel { font_family: value, ..settings },
            ..state
        },
        Key::FontSize => if is_numeral(value) {
            Reading { settings: SettingsModel { font_size: value, ..settings }, ..state }
        } else {
            state
        },
        _ => if state.preset_active {
            state
        } else {
            state.with_colors(set_color(settings.colors, key, value))
        },
    }
}

/// The state after one more line.
pub open spec fn apply_line(state: Reading, line: Seq<char>) -> Reading {
    match recognized(line) {
        Some((key, value)) => apply_entry(state, key, value),
        None => state,
    }
}

/// The state after `lines` are read in order, from `state` on.
pub open spec fn read_from(state: Reading, lines: Seq<Seq<char>>) -> Reading
    decreases lines.len(),
{
    if lines.len() == 0 {
        state
    } else {
        apply_line(read_from(state, lines.drop_last()), lines.last())
    }
}

/// The state after all of `lines`, read in order from the defaults on.
pub open spec fn read_lines(lines: Seq<Seq<char>>) -> Reading {
    read_from(Reading::start(), lines)
}

/// The settings that a list of lines holds.
pub open spec fn parse_lines(lines: Seq<Seq<char>>) -> SettingsModel {
    read_lines(lines).settings
}

/// The settings that a text holds.
pub open spec fn parse_text(text: Seq<char>) -> SettingsModel {
    parse_lines(split_lines(text))
}

/// Reading keeps the settings well formed.
pub proof fn lemma_read_from_well_formed(state: Reading, lines: Seq<Seq<char>>)
    requires
        state.settings.well_formed(),
    ensures
        read_from(state, lines).settings.well_formed(),
    decreases lines.len(),
{
    if lines.len() > 0 {
        lemma_read_from_well_formed(state, lines.drop_last());
        match recognized(lines.last()) {
            Some((key, value)) => {
                match key {
                    Key::ActivePreset => {
                        match ColorSchemePreset::spec_from_name(value) {
                            Some(preset) => {
                                crate::config::lemma_preset_colors_well_formed(preset);
                            },
                            None => {},
                        }
                    },
                    _ => {},
                }
            },
            None => {},
        }
    }
}

/// What is read from a text is well formed.
pub proof fn law_parse_well_formed(text: Seq<char>)
    ensures
        parse_text(text).well_formed(),
{
    crate::config::lemma_twelve_is_numeral();
    lemma_read_from_well_formed(Reading::start(), split_lines(text));
}

/// Applies one line to the settings read so far.
fn read_line(settings: &mut AppSettings, preset_active: &mut bool, line: &str)
    requires
        old(settings)@.well_formed(),
    ensures
        (Reading { settings: final(settings)@, preset_active: *final(preset_active) })
            == apply_line(
            (Reading { settings: old(settings)@, preset_active: *old(preset_active) }),
            line@,
        ),
        final(settings)@.well_formed(),
{
    let ghost before = Reading { settings: settings@, preset_active: *preset_active };
    let chars = chars_of(line);
    let (key, from, to) = match entry_at(&chars) {
        Some(found) => found,
        None => {
            return ;
        },
    };
    let value = stretch_of(line, from, to);
    match key {
        Key::TitleBar => {
            settings.title_bar_visible = same_text(value.as_str(), "true");
        },
        Key::ActivePreset => {
            match ColorSchemePreset::from_name(value.as_str()) {
                Some(preset) => {
                    proof {
                        crate::config::lemma_preset_colors_well_formed(preset);
                    }
                    settings.colors = get_preset_colors(&preset);
                    *preset_active = true;
                },
                None => {},
            }
            settings.colors.active_preset = Some(value);
        },
        Key::Foreground => {
            if !*preset_active {
                settings.colors.foreground = Some(value);
            }
        },
        Key::Background => {
            if !*preset_active {
                settings.colors.background = Some(value);
            }
        },
        Key::BackgroundOpacity => {
            if !*preset_active {
                match Numeral::parse(value.as_str()) {
                    Some(opacity) => {
                        settings.colors.background_opacity = Some(opacity);
                    },
                    None => {},
                }
            }
        },
        Key::Color(index) => {
            if !*preset_active {
                let ghost palette = settings.colors.palette@;
                settings.colors.palette.set(index, Some(value));
                assert(settings@.colors.palette =~= before.settings.colors.palette.update(
                    index as int,
                    Some(value@),
                ));
            }
        },
        Key::FontFamily => {
            settings.font_family = value;
        },
        Key::FontSize => {
            match Numeral::parse(value.as_str()) {
                Some(size) => {
                    settings.font_size = size;
                },
                None => {},
            }
        },
    }
}

/// Reads the settings that a list of lines holds.
pub fn parse_settings_lines(lines: &Vec<String>) -> (r: AppSettings)
    ensures
        r@ == parse_lines(texts(lines@)),
        r@.well_formed(),
{
    let mut settings = AppSettings::default();
    let mut preset_active: bool = false;
    let n: usize = lines.len();
    let mut i: usize = 0;
    proof {
        crate::config::lemma_twelve_is_numeral();
    }
    while i < n
        invariant
            n == lines.len(),
            i <= n,
            settings@.well_formed(),
            (Reading { settings: settings@, preset_active }) == read_lines(
                texts(lines@).take(i as int),
            ),
        decreases n - i,
    {
        proof {
            let next = texts(lines@).take(i + 1);
            assert(next.drop_last() =~= texts(lines@).take(i as int));
            assert(next.last() == lines@[i as int]@);
        }
        read_line(&mut settings, &mut preset_active, lines[i].as_str());
        i += 1;
    }
    proof {
        assert(texts(lines@).take(n as int) =~= texts(lines@));
    }
    settings
}

/// Reads the settings that a text holds. Lines that are blank, that have no
/// `=` or whose key is unknown are passed over, and so is a number that is no
/// numeral; the empty text gives the defaults.
pub fn parse_app_settings(raw: &str) -> (r: AppSettings)
    ensures
        r@ == parse_text(raw@),
        r@.well_formed(),
{
    let lines = lines_of(raw);
    parse_settings_lines(&lines)
}

/// Reads the colours that a text holds.
pub fn parse_color_settings(raw: &str) -> (r: ColorSettings)
    ensures
        r@ == parse_text(raw@).colors,
        r@.well_formed(),
{
    parse_app_settings(raw).colors
}

/// Reads from a text whether the title bar shows.
pub fn parse_title_bar_setting(raw: &str) -> (r: bool)
    ensures
        r == parse_text(raw@).title_bar_visible,
{
    parse_app_settings(raw).title_bar_visible
}

} // verus!
