//! Laws of reading settings back from the lines and the text into which
//! they were written.

use vstd::prelude::*;
use vstd::string::*;

use crate::codec::{Key, Scope, in_scope, recognized};
use crate::codec::parse::{Reading, apply_entry, apply_line, parse_lines, parse_text, read_from};
use crate::codec::render::{
    bool_text, color_lines, entry_line, optional_line, override_lines, palette_count,
    palette_lines, render_colors_lines, render_font_family_lines, render_font_size_lines,
    render_titlebar_lines, without_scope,
};
use crate::codec::written::{
    can_be_read_back, is_trimmed_value, lemma_numeral_is_trimmed, lemma_preset_name_shape,
    lemma_recognized_line, names_known_preset,
};
use crate::config::{ColorBundle, ColorSchemePreset, PALETTE_SIZE, SettingsModel, preset_colors};
use crate::numeral::is_numeral;
use crate::text::{
    all_lines, is_line, is_trimmed, join_lines, lemma_join_lines_front, lemma_position,
    lemma_position_push, lemma_position_unique, lemma_trim_of_trimmed, lemma_trim_push_space,
    position, split_lines, strip_cr, trim,
};

verus! {

/// `state` with the part that `scope` covers taken from `other`. The colour
/// scope covers the colours and whether a preset is active.
pub open spec fn with_scope_from(state: Reading, scope: Scope, other: Reading) -> Reading {
    match scope {
        Scope::TitleBar => Reading {
            settings: SettingsModel {
                title_bar_visible: other.settings.title_bar_visible,
                ..state.settings
            },
            ..state
        },
        Scope::Colors => Reading {
            settings: SettingsModel { colors: other.settings.colors, ..state.settings },
            preset_active: other.preset_active,
        },
        Scope::FontFamily => Reading {
            settings: SettingsModel { font_family: other.settings.font_family, ..state.settings },
            ..state
        },
        Scope::FontSize => Reading {
            settings: SettingsModel { font_size: other.settings.font_size, ..state.settings },
            ..state
        },
    }
}

/// Reading two lists of lines one after the other is reading the joined
/// list.
pub proof fn lemma_read_from_concat(state: Reading, a: Seq<Seq<char>>, b: Seq<Seq<char>>)
    ensures
        read_from(state, a + b) == read_from(read_from(state, a), b),
    decreases b.len(),
{
    if b.len() == 0 {
        assert(a + b =~= a);
    } else {
        let whole = a + b;
        assert(whole.drop_last() =~= a + b.drop_last());
        assert(whole.last() == b.last());
        lemma_read_from_concat(state, a, b.drop_last());
    }
}

/// Reading one line after others.
pub proof fn lemma_read_from_push(state: Reading, lines: Seq<Seq<char>>, line: Seq<char>)
    ensures
        read_from(state, lines.push(line)) == apply_line(read_from(state, lines), line),
{
    assert(lines.push(line).drop_last() =~= lines);
}

/// A line changes only the part of the state that its scope covers, and
/// what it changes that part to depends on nothing outside that part.
pub proof fn lemma_apply_line_scoped(state: Reading, other: Reading, scope: Scope, line: Seq<char>)
    ensures
        in_scope(line, scope) ==> with_scope_from(apply_line(state, line), scope, other)
            == with_scope_from(state, scope, other),
        !in_scope(line, scope) ==> apply_line(with_scope_from(state, scope, other), line)
            == with_scope_from(apply_line(state, line), scope, other),
{
}

/// Reading a text from which a scope was taken out gives what reading the
/// whole text gives, but for the part that the scope covers: that part is as
/// it was at the start.
pub proof fn lemma_read_without_scope(start: Reading, lines: Seq<Seq<char>>, scope: Scope)
    ensures
        read_from(start, without_scope(lines, scope)) == with_scope_from(
            read_from(start, lines),
            scope,
            start,
        ),
    decreases lines.len(),
{
    if lines.len() > 0 {
        let rest = lines.drop_last();
        let last = lines.last();
        lemma_read_without_scope(start, rest, scope);
        lemma_apply_line_scoped(read_from(start, rest), start, scope, last);
        if !in_scope(last, scope) {
            lemma_read_from_push(start, without_scope(rest, scope), last);
        }
    }
}

/// The colours that are read from a text into which `colors` were written:
/// those of the preset where `colors` name a known one, and `colors`
/// themselves otherwise.
pub open spec fn colors_read_back(colors: ColorBundle) -> ColorBundle {
    match colors.active_preset {
        Some(name) => match ColorSchemePreset::spec_from_name(name) {
            Some(preset) => preset_colors(preset),
            None => colors,
        },
        None => colors,
    }
}

/// Reading the line of a value that may be unset.
pub proof fn lemma_read_optional(state: Reading, key: Key, value: Option<Seq<char>>)
    requires
        key.is_valid(),
    ensures
        read_from(state, optional_line(key, value)) == (match value {
            Some(v) => apply_entry(state, key, trim(v)),
            None => state,
        }),
{
    match value {
        Some(v) => {
            let line = entry_line(key, v);
            let none = Seq::<Seq<char>>::empty();
            assert(seq![line] =~= none.push(line));
            lemma_read_from_push(state, none, line);
            lemma_recognized_line(key, v);
        },
        None => {},
    }
}

/// The palette after the lines of the first `n` entries of `palette` are
/// read over `before`: an entry that is set replaces the one before.
pub open spec fn palette_over(
    before: Seq<Option<Seq<char>>>,
    palette: Seq<Option<Seq<char>>>,
    n: nat,
) -> Seq<Option<Seq<char>>> {
    Seq::new(
        before.len(),
        |i: int|
            if i < n && palette[i] is Some {
                palette[i]
            } else {
                before[i]
            },
    )
}

/// Reading the lines of a palette while no preset is active.
pub proof fn lemma_read_palette(state: Reading, palette: Seq<Option<Seq<char>>>, n: nat)
    requires
        !state.preset_active,
        n <= palette.len(),
        n <= state.settings.colors.palette.len(),
        n <= PALETTE_SIZE,
        forall|i: int| 0 <= i < n ==> is_trimmed_value(#[trigger] palette[i]),
    ensures
        read_from(state, palette_lines(palette, n)) == state.with_colors(
            ColorBundle {
                palette: palette_over(state.settings.colors.palette, palette, n),
                ..state.settings.colors
            },
        ),
    decreases n,
{
    let before = state.settings.colors.palette;
    if n == 0 {
        assert(palette_over(before, palette, 0) =~= before);
    } else {
        let m = (n - 1) as nat;
        let key = Key::Color(m as usize);
        lemma_read_palette(state, palette, m);
        lemma_read_from_concat(state, palette_lines(palette, m), optional_line(key, palette[n - 1]));
        let middle = read_from(state, palette_lines(palette, m));
        lemma_read_optional(middle, key, palette[n - 1]);
        assert(is_trimmed_value(palette[n - 1]));
        match palette[n - 1] {
            Some(v) => {
                assert(palette_over(before, palette, m).update(m as int, Some(v)) =~= palette_over(
                    before,
                    palette,
                    n,
                ));
            },
            None => {
                assert(palette_over(before, palette, m) =~= palette_over(before, palette, n));
            },
        }
    }
}

/// Reading the lines of the colours themselves, while no preset is active
/// and no colour has been set: the colours are then those that were written.
pub proof fn lemma_read_overrides(state: Reading, colors: ColorBundle)
    requires
        !state.preset_active,
        state.settings.colors == (ColorBundle {
            active_preset: state.settings.colors.active_preset,
            ..ColorBundle::unset()
        }),
        can_be_read_back(colors),
    ensures
        read_from(state, override_lines(colors)) == state.with_colors(
            ColorBundle { active_preset: state.settings.colors.active_preset, ..colors },
        ),
{
    let foreground = optional_line(Key::Foreground, colors.foreground);
    let background = optional_line(Key::Background, colors.background);
    let opacity = optional_line(Key::BackgroundOpacity, colors.background_opacity);
    let count = palette_count(colors.palette);
    let palette = palette_lines(colors.palette, count);
    lemma_read_from_concat(state, foreground + background + opacity, palette);
    lemma_read_from_concat(state, foreground + background, opacity);
    lemma_read_from_concat(state, foreground, background);
    lemma_read_optional(state, Key::Foreground, colors.foreground);
    let one = read_from(state, foreground);
    lemma_read_optional(one, Key::Background, colors.background);
    let two = read_from(one, background);
    lemma_read_optional(two, Key::BackgroundOpacity, colors.background_opacity);
    let three = read_from(two, opacity);
    if colors.background_opacity is Some {
        lemma_numeral_is_trimmed(colors.background_opacity.unwrap());
    }
    assert forall|i: int| 0 <= i < count implies is_trimmed_value(#[trigger] colors.palette[i]) by {}
    lemma_read_palette(three, colors.palette, count);
    assert(palette_over(three.settings.colors.palette, colors.palette, count) =~= colors.palette);
}

/// Reading the fresh lines of colour settings, while no preset is active
/// and no colour has been set.
pub proof fn lemma_read_color_lines(state: Reading, colors: ColorBundle)
    requires
        !state.preset_active,
        state.settings.colors == ColorBundle::unset(),
        !names_known_preset(colors) ==> can_be_read_back(colors),
    ensures
        read_from(state, color_lines(colors)).settings == (SettingsModel {
            colors: colors_read_back(colors),
            ..state.settings
        }),
{
    match colors.active_preset {
        Some(name) => {
            let first = seq![entry_line(Key::ActivePreset, name)];
            assert(first =~= optional_line(Key::ActivePreset, Some(name)));
            lemma_read_optional(state, Key::ActivePreset, Some(name));
            match ColorSchemePreset::spec_from_name(name) {
                Some(preset) => {
                    lemma_preset_name_shape(name);
                },
                None => {
                    let named = read_from(state, first);
                    lemma_read_from_concat(state, first, override_lines(colors));
                    lemma_read_overrides(named, colors);
                },
            }
        },
        None => {
            lemma_read_overrides(state, colors);
        },
    }
}

/// Colour settings that are written into a text are read from it again,
/// whatever the text held before, and the other settings are read as before.
/// Where the settings name a known preset, the colours that are read are the
/// preset's.
pub proof fn law_colors_written_then_read(existing: Seq<Seq<char>>, colors: ColorBundle)
    requires
        !names_known_preset(colors) ==> can_be_read_back(colors),
    ensures
        parse_lines(render_colors_lines(existing, colors)) == (SettingsModel {
            colors: colors_read_back(colors),
            ..parse_lines(existing)
        }),
{
    let start = Reading::start();
    let kept = without_scope(existing, Scope::Colors);
    lemma_read_without_scope(start, existing, Scope::Colors);
    lemma_read_from_concat(start, kept, color_lines(colors));
    lemma_read_color_lines(read_from(start, kept), colors);
}

/// The title bar's visibility that is written into a text is read from it
/// again, and the other settings are read as before.
pub proof fn law_titlebar_written_then_read(existing: Seq<Seq<char>>, visible: bool)
    ensures
        parse_lines(render_titlebar_lines(existing, visible)) == (SettingsModel {
            title_bar_visible: visible,
            ..parse_lines(existing)
        }),
{
    let start = Reading::start();
    let kept = without_scope(existing, Scope::TitleBar);
    let value = bool_text(visible);
    lemma_read_without_scope(start, existing, Scope::TitleBar);
    lemma_read_from_push(start, kept, entry_line(Key::TitleBar, value));
    lemma_recognized_line(Key::TitleBar, value);
    reveal_strlit("true");
    reveal_strlit("false");
    assert("true"@.len() == 4 && "false"@.len() == 5);
    assert(is_trimmed(value));
}

/// A font family that is written into a text is read from it again, and the
/// other settings are read as before.
pub proof fn law_font_family_written_then_read(existing: Seq<Seq<char>>, family: Seq<char>)
    requires
        is_trimmed(family),
    ensures
        parse_lines(render_font_family_lines(existing, family)) == (SettingsModel {
            font_family: family,
            ..parse_lines(existing)
        }),
{
    let start = Reading::start();
    let kept = without_scope(existing, Scope::FontFamily);
    lemma_read_without_scope(start, existing, Scope::FontFamily);
    lemma_read_from_push(start, kept, entry_line(Key::FontFamily, family));
    lemma_recognized_line(Key::FontFamily, family);
    lemma_trim_of_trimmed(family);
}

/// A font size that is written into a text is read from it again, and the
/// other settings are read as before.
pub proof fn law_font_size_written_then_read(existing: Seq<Seq<char>>, size: Seq<char>)
    requires
        is_numeral(size),
    ensures
        parse_lines(render_font_size_lines(existing, size)) == (SettingsModel {
            font_size: size,
            ..parse_lines(existing)
        }),
{
    let start = Reading::start();
    let kept = without_scope(existing, Scope::FontSize);
    lemma_read_without_scope(start, existing, Scope::FontSize);
    lemma_read_from_push(start, kept, entry_line(Key::FontSize, size));
    lemma_recognized_line(Key::FontSize, size);
    lemma_numeral_is_trimmed(size);
}

/// Whether the colours that were read are those of the preset that they
/// name, where they name a known one; a preset is then active.
pub open spec fn follows_preset(state: Reading) -> bool {
    let colors = state.settings.colors;
    colors.active_preset matches Some(name) ==> (ColorSchemePreset::spec_from_name(name) matches Some(
        preset,
    ) ==> state.preset_active && colors == preset_colors(preset))
}

/// Reading keeps the colours with the preset that they name.
pub proof fn lemma_read_follows_preset(state: Reading, lines: Seq<Seq<char>>)
    requires
        follows_preset(state),
    ensures
        follows_preset(read_from(state, lines)),
    decreases lines.len(),
{
    if lines.len() > 0 {
        lemma_read_follows_preset(state, lines.drop_last());
        match recognized(lines.last()) {
            Some((Key::ActivePreset, value)) => {
                if ColorSchemePreset::spec_from_name(value) is Some {
                    lemma_preset_name_shape(value);
                }
            },
            _ => {},
        }
    }
}

/// Settings that are read from a text and name a known preset have the
/// colours of that preset, whatever colour lines the text holds.
pub proof fn law_known_preset_gives_its_colors(lines: Seq<Seq<char>>)
    ensures
        parse_lines(lines).colors.active_preset matches Some(name) ==> (
        ColorSchemePreset::spec_from_name(name) matches Some(preset) ==> parse_lines(lines).colors
            == preset_colors(preset)),
{
    lemma_read_follows_preset(Reading::start(), lines);
}

/// A carriage return at the end of a line changes nothing of what the line
/// says.
pub proof fn lemma_recognized_strip_cr(line: Seq<char>)
    ensures
        recognized(strip_cr(line)) == recognized(line),
{
    if line.len() > 0 && line.last() == '\r' {
        let short = line.drop_last();
        assert(line =~= short.push('\r'));
        lemma_position(short, '=');
        lemma_position_push(short, '=', '\r');
        let n = position(short, '=') as int;
        if n < short.len() {
            assert(line.take(n) =~= short.take(n));
            assert(line.skip(n + 1) =~= short.skip(n + 1).push('\r'));
            lemma_trim_push_space(short.skip(n + 1), '\r');
        }
    }
}

/// Reading a list of lines is reading its first line and then the others.
pub proof fn lemma_read_from_front(state: Reading, first: Seq<char>, rest: Seq<Seq<char>>)
    ensures
        read_from(state, seq![first] + rest) == read_from(apply_line(state, first), rest),
{
    let none = Seq::<Seq<char>>::empty();
    assert(seq![first] =~= none.push(first));
    lemma_read_from_push(state, none, first);
    lemma_read_from_concat(state, seq![first], rest);
}

/// Reading the lines of a joined text is reading the lines that were joined.
pub proof fn lemma_read_joined(state: Reading, lines: Seq<Seq<char>>)
    requires
        all_lines(lines),
    ensures
        read_from(state, split_lines(join_lines(lines))) == read_from(state, lines),
    decreases lines.len(),
{
    let none = Seq::<Seq<char>>::empty();
    if lines.len() == 0 {
    } else if lines.len() == 1 {
        let only = lines[0];
        assert(lines =~= none.push(only));
        lemma_read_from_push(state, none, only);
        if only.len() == 0 {
            lemma_position(only, '=');
        } else {
            assert(is_line(only));
            lemma_position_unique(only, '\n', only.len() as int);
            assert(split_lines(only) =~= lines);
        }
    } else {
        let first = lines[0];
        let rest = lines.drop_first();
        let text = join_lines(lines);
        lemma_join_lines_front(lines);
        assert(is_line(first));
        assert(text[first.len() as int] == '\n');
        assert forall|i: int| 0 <= i < first.len() implies text[i] != '\n' by {
            assert(text[i] == first[i]);
        }
        lemma_position_unique(text, '\n', first.len() as int);
        assert(text.take(first.len() as int) =~= first);
        assert(text.skip(first.len() as int + 1) =~= join_lines(rest));
        assert forall|i: int| 0 <= i < rest.len() implies is_line(#[trigger] rest[i]) by {
            assert(rest[i] == lines[i + 1]);
        }
        lemma_recognized_strip_cr(first);
        let next = apply_line(state, first);
        lemma_read_joined(next, rest);
        lemma_read_from_front(state, strip_cr(first), split_lines(join_lines(rest)));
        lemma_read_from_front(state, first, rest);
        assert(seq![first] + rest =~= lines);
    }
}

/// The settings that are read from a joined text are those that its lines
/// hold.
pub proof fn law_parse_joined(lines: Seq<Seq<char>>)
    requires
        all_lines(lines),
    ensures
        parse_text(join_lines(lines)) == parse_lines(lines),
{
    lemma_read_joined(Reading::start(), lines);
}

} // verus!
