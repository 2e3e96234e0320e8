//! The lines that are written for settings: what they look like, that they
//! are recognized as the keys they were written for, and when they can stand
//! in a text as they are.

use vstd::prelude::*;
use vstd::string::*;

use crate::codec::{Key, Scope, entry_of, in_scope, key_of, recognized};
use crate::codec::render::{
    color_lines, entry_line, optional_line, override_lines, palette_count, palette_lines,
};
use crate::config::{ColorBundle, ColorSchemePreset, PALETTE_SIZE};
use crate::numeral::{
    decimal, is_digit, is_numeral, is_numeral_char, lemma_index_of_decimal, lemma_numeral_chars,
};
use crate::text::{
    all_lines, all_whole_lines, is_line, is_space, is_trimmed, is_whole_line,
    lemma_position_unique, trim, trim_end, trim_start,
};

verus! {

/// Whether `c` can stand inside a key: it is no white space, and so no line
/// feed either, and no `=`.
pub open spec fn is_key_char(c: char) -> bool {
    !is_space(c) && c != '='
}

/// Whether every character of `s` can stand inside a key.
pub open spec fn is_key_text(s: Seq<char>) -> bool {
    &&& s.len() > 0
    &&& forall|i: int| 0 <= i < s.len() ==> is_key_char(#[trigger] s[i])
}

/// The text of a key is made of characters that can stand inside a key.
pub proof fn lemma_key_text_shape(key: Key)
    ensures
        is_key_text(key.text()),
{
    reveal_strlit("titlebar");
    reveal_strlit("active_preset");
    reveal_strlit("foreground");
    reveal_strlit("background");
    reveal_strlit("background_opacity");
    reveal_strlit("font_family");
    reveal_strlit("font_size");
    reveal_strlit("color");
    match key {
        Key::Color(index) => {
            lemma_index_of_decimal(index as nat);
            let digits = decimal(index as nat);
            let s = key.text();
            assert forall|i: int| 0 <= i < s.len() implies is_key_char(#[trigger] s[i]) by {
                if i >= 5 {
                    assert(s[i] == digits[i - 5]);
                    assert(is_digit(digits[i - 5]));
                }
            }
        },
        _ => {},
    }
}

/// The text of a key that the settings text can hold stands for that key.
pub proof fn lemma_key_of_text(key: Key)
    requires
        key.is_valid(),
    ensures
        key_of(key.text()) == Some(key),
{
    reveal_strlit("titlebar");
    reveal_strlit("active_preset");
    reveal_strlit("foreground");
    reveal_strlit("background");
    reveal_strlit("background_opacity");
    reveal_strlit("font_family");
    reveal_strlit("font_size");
    reveal_strlit("color");
    let s = key.text();
    match key {
        Key::Color(index) => {
            lemma_index_of_decimal(index as nat);
            let digits = decimal(index as nat);
            assert(s.len() >= 6);
            assert(s[5] == digits[0]);
            assert(s.take(5) =~= "color"@);
            assert(s.skip(5) =~= digits);
            assert("titlebar"@[5] == 'b');
            assert("active_preset"@[5] == 'e');
            assert("foreground"@[5] == 'r');
            assert("background"@[5] == 'r');
            assert("background_opacity"@[5] == 'r');
            assert("font_family"@[5] == 'f');
            assert("font_size"@[5] == 's');
        },
        Key::TitleBar => {
            assert(s.len() == 8);
        },
        Key::ActivePreset => {
            assert(s.len() == 13);
        },
        Key::Foreground => {
            assert(s.len() == 10 && s[0] == 'f');
            assert("background"@[0] == 'b');
        },
        Key::Background => {
            assert(s.len() == 10 && s[0] == 'b');
        },
        Key::BackgroundOpacity => {
            assert(s.len() == 18);
        },
        Key::FontFamily => {
            assert(s.len() == 11);
        },
        Key::FontSize => {
            assert(s.len() == 9);
        },
    }
}

/// The two sides of a written line are the key's text and the value without
/// the white space around it.
pub proof fn lemma_entry_of_line(key: Key, value: Seq<char>)
    ensures
        entry_of(entry_line(key, value)) == Some((key.text(), trim(value))),
{
    lemma_key_text_shape(key);
    let name = key.text();
    let line = entry_line(key, value);
    let n = name.len() as int;
    assert(line[n + 1] == '=');
    assert forall|i: int| 0 <= i < n + 1 implies line[i] != '=' by {
        if i < n {
            assert(line[i] == name[i]);
            assert(is_key_char(name[i]));
        }
    }
    lemma_position_unique(line, '=', n + 1);
    let left = line.take(n + 1);
    let right = line.skip(n + 2);
    assert(left =~= name.push(' '));
    assert(right =~= seq![' '] + value);
    assert(is_key_char(name[0]) && is_key_char(name[n - 1]));
    assert(left.first() == name[0]);
    assert(trim_start(left) == left);
    assert(left.drop_last() =~= name);
    assert(trim_end(left) == trim_end(name));
    assert(name.last() == name[n - 1]);
    assert(trim_end(name) == name);
    assert(right.drop_first() =~= value);
    assert(trim_start(right) == trim_start(value));
}

/// A written line is recognized as its key with the trimmed value.
pub proof fn lemma_recognized_line(key: Key, value: Seq<char>)
    requires
        key.is_valid(),
    ensures
        recognized(entry_line(key, value)) == Some((key, trim(value))),
        in_scope(entry_line(key, value), key.spec_scope()),
{
    lemma_entry_of_line(key, value);
    lemma_key_of_text(key);
}

/// Whether every line of `lines` belongs to `scope`.
pub open spec fn all_in_scope(lines: Seq<Seq<char>>, scope: Scope) -> bool {
    forall|i: int| 0 <= i < lines.len() ==> in_scope(#[trigger] lines[i], scope)
}

/// The lines for a palette are colour lines.
pub proof fn lemma_palette_lines_in_scope(palette: Seq<Option<Seq<char>>>, n: nat)
    requires
        n <= PALETTE_SIZE,
    ensures
        all_in_scope(palette_lines(palette, n), Scope::Colors),
    decreases n,
{
    if n > 0 {
        lemma_palette_lines_in_scope(palette, (n - 1) as nat);
        let before = palette_lines(palette, (n - 1) as nat);
        let key = Key::Color((n - 1) as usize);
        let last = optional_line(key, palette[n - 1]);
        let all = palette_lines(palette, n);
        assert forall|i: int| 0 <= i < all.len() implies in_scope(
            #[trigger] all[i],
            Scope::Colors,
        ) by {
            if i < before.len() {
                assert(all[i] == before[i]);
            } else {
                lemma_recognized_line(key, palette[n - 1].unwrap());
            }
        }
    }
}

/// The lines for the colours themselves are colour lines.
pub proof fn lemma_override_lines_in_scope(colors: ColorBundle)
    ensures
        all_in_scope(override_lines(colors), Scope::Colors),
{
    let foreground = optional_line(Key::Foreground, colors.foreground);
    let background = optional_line(Key::Background, colors.background);
    let opacity = optional_line(Key::BackgroundOpacity, colors.background_opacity);
    let palette = palette_lines(colors.palette, palette_count(colors.palette));
    let all = override_lines(colors);
    lemma_palette_lines_in_scope(colors.palette, palette_count(colors.palette));
    if colors.foreground is Some {
        lemma_recognized_line(Key::Foreground, colors.foreground.unwrap());
    }
    if colors.background is Some {
        lemma_recognized_line(Key::Background, colors.background.unwrap());
    }
    if colors.background_opacity is Some {
        lemma_recognized_line(Key::BackgroundOpacity, colors.background_opacity.unwrap());
    }
    assert forall|i: int| 0 <= i < all.len() implies in_scope(#[trigger] all[i], Scope::Colors) by {
        let a = foreground.len() as int;
        let b = a + background.len();
        let c = b + opacity.len();
        if i < a {
            assert(all[i] == foreground[i]);
        } else if i < b {
            assert(all[i] == background[i - a]);
        } else if i < c {
            assert(all[i] == opacity[i - b]);
        } else {
            assert(all[i] == palette[i - c]);
        }
    }
}

/// The fresh lines for colour settings are colour lines.
pub proof fn lemma_color_lines_in_scope(colors: ColorBundle)
    ensures
        all_in_scope(color_lines(colors), Scope::Colors),
{
    lemma_override_lines_in_scope(colors);
    let all = color_lines(colors);
    match colors.active_preset {
        Some(name) => {
            lemma_recognized_line(Key::ActivePreset, name);
            let overrides = override_lines(colors);
            assert forall|i: int| 0 <= i < all.len() implies in_scope(
                #[trigger] all[i],
                Scope::Colors,
            ) by {
                if i > 0 {
                    assert(all[i] == overrides[i - 1]);
                }
            }
        },
        None => {},
    }
}

/// Whether a value that may be unset has no white space around it.
pub open spec fn is_trimmed_value(value: Option<Seq<char>>) -> bool {
    value matches Some(v) ==> is_trimmed(v)
}

/// Whether colour settings come back from the text as they were written:
/// they are well formed, and no colour and no preset name has white space
/// around it.
pub open spec fn can_be_read_back(colors: ColorBundle) -> bool {
    &&& colors.well_formed()
    &&& is_trimmed_value(colors.foreground)
    &&& is_trimmed_value(colors.background)
    &&& is_trimmed_value(colors.active_preset)
    &&& forall|i: int| 0 <= i < colors.palette.len() ==> is_trimmed_value(#[trigger] colors.palette[i])
}

/// Whether colour settings name a known preset.
pub open spec fn names_known_preset(colors: ColorBundle) -> bool {
    colors.active_preset matches Some(name) && ColorSchemePreset::spec_from_name(name) is Some
}

/// A numeral has no white space around it.
pub proof fn lemma_numeral_is_trimmed(s: Seq<char>)
    requires
        is_numeral(s),
    ensures
        is_trimmed(s),
        trim(s) == s,
{
    lemma_numeral_chars(s);
    assert(is_numeral_char(s[0]));
    assert(is_numeral_char(s[s.len() - 1]));
}

/// The name of a known preset has no white space around it, and is the name
/// of the preset that it finds.
pub proof fn lemma_preset_name_shape(name: Seq<char>)
    requires
        ColorSchemePreset::spec_from_name(name) is Some,
    ensures
        is_trimmed(name),
        trim(name) == name,
        ColorSchemePreset::spec_from_name(name).unwrap().spec_name() == name,
{
    reveal_strlit("GruvboxDark");
    reveal_strlit("CatppuccinMocha");
    reveal_strlit("Monokai");
    reveal_strlit("Nord");
    reveal_strlit("TokyoNight");
    reveal_strlit("Custom");
}

/// A written line is a whole line where its value can stand on one line and
/// has no white space around it.
pub proof fn lemma_entry_line_whole(key: Key, value: Seq<char>)
    requires
        is_line(value),
        is_trimmed(value),
    ensures
        is_whole_line(entry_line(key, value)),
{
    lemma_key_text_shape(key);
    let name = key.text();
    let line = entry_line(key, value);
    assert forall|i: int| 0 <= i < line.len() implies #[trigger] line[i] != '\n' by {
        if i < name.len() {
            assert(line[i] == name[i]);
            assert(is_key_char(name[i]));
        } else if i >= name.len() + 3 {
            assert(line[i] == value[i - name.len() - 3]);
        }
    }
    if value.len() > 0 {
        assert(line.last() == value.last());
    } else {
        assert(line.last() == ' ');
    }
}

/// Whether a value that may be unset can stand on one line.
pub open spec fn is_line_value(value: Option<Seq<char>>) -> bool {
    value matches Some(v) ==> is_line(v)
}

/// Whether colour settings can be kept in a text: they come back from its
/// lines as they were written, and each colour and the preset name can
/// stand on one line.
pub open spec fn can_be_stored(colors: ColorBundle) -> bool {
    &&& can_be_read_back(colors)
    &&& is_line_value(colors.foreground)
    &&& is_line_value(colors.background)
    &&& is_line_value(colors.active_preset)
    &&& forall|i: int| 0 <= i < colors.palette.len() ==> is_line_value(#[trigger] colors.palette[i])
}

/// The line of a value that can be stored is a whole line.
pub proof fn lemma_optional_line_whole(key: Key, value: Option<Seq<char>>)
    requires
        is_line_value(value),
        is_trimmed_value(value),
    ensures
        all_whole_lines(optional_line(key, value)),
{
    if value is Some {
        lemma_entry_line_whole(key, value.unwrap());
    }
}

/// A list of lines followed by whole lines is a list of lines.
pub proof fn lemma_all_lines_concat(a: Seq<Seq<char>>, b: Seq<Seq<char>>)
    requires
        all_lines(a),
        all_whole_lines(b),
    ensures
        all_lines(a + b),
{
    let all = a + b;
    assert forall|i: int| 0 <= i < all.len() implies is_line(#[trigger] all[i]) by {
        if i < a.len() {
            assert(all[i] == a[i]);
        } else {
            assert(all[i] == b[i - a.len()]);
            assert(is_whole_line(b[i - a.len()]));
        }
    }
}

/// Two lists of whole lines, joined, are a list of whole lines.
pub proof fn lemma_whole_lines_concat(a: Seq<Seq<char>>, b: Seq<Seq<char>>)
    requires
        all_whole_lines(a),
        all_whole_lines(b),
    ensures
        all_whole_lines(a + b),
{
    let all = a + b;
    assert forall|i: int| 0 <= i < all.len() implies is_whole_line(#[trigger] all[i]) by {
        if i < a.len() {
            assert(all[i] == a[i]);
        } else {
            assert(all[i] == b[i - a.len()]);
        }
    }
}

/// The lines for a palette whose entries can be stored are whole lines.
pub proof fn lemma_palette_lines_whole(palette: Seq<Option<Seq<char>>>, n: nat)
    requires
        n <= palette.len(),
        forall|i: int| 0 <= i < n ==> is_line_value(#[trigger] palette[i]),
        forall|i: int| 0 <= i < n ==> is_trimmed_value(#[trigger] palette[i]),
    ensures
        all_whole_lines(palette_lines(palette, n)),
    decreases n,
{
    if n > 0 {
        lemma_palette_lines_whole(palette, (n - 1) as nat);
        assert(is_line_value(palette[n - 1]));
        assert(is_trimmed_value(palette[n - 1]));
        lemma_optional_line_whole(Key::Color((n - 1) as usize), palette[n - 1]);
        lemma_whole_lines_concat(
            palette_lines(palette, (n - 1) as nat),
            optional_line(Key::Color((n - 1) as usize), palette[n - 1]),
        );
    }
}

/// A numeral can stand on one line.
pub proof fn lemma_numeral_is_line(s: Seq<char>)
    requires
        is_numeral(s),
    ensures
        is_line(s),
{
    lemma_numeral_chars(s);
    assert forall|i: int| 0 <= i < s.len() implies #[trigger] s[i] != '\n' by {
        assert(is_numeral_char(s[i]));
    }
}

/// The fresh lines of colour settings that can be stored are whole lines.
pub proof fn lemma_color_lines_whole(colors: ColorBundle)
    requires
        !names_known_preset(colors) ==> can_be_stored(colors),
    ensures
        all_whole_lines(color_lines(colors)),
{
    if names_known_preset(colors) {
        let name = colors.active_preset.unwrap();
        lemma_preset_name_shape(name);
        reveal_strlit("GruvboxDark");
        reveal_strlit("CatppuccinMocha");
        reveal_strlit("Monokai");
        reveal_strlit("Nord");
        reveal_strlit("TokyoNight");
        reveal_strlit("Custom");
        assert(is_line(name));
        lemma_entry_line_whole(Key::ActivePreset, name);
    } else {
        let foreground = optional_line(Key::Foreground, colors.foreground);
        let background = optional_line(Key::Background, colors.background);
        let opacity = optional_line(Key::BackgroundOpacity, colors.background_opacity);
        let count = palette_count(colors.palette);
        let palette = palette_lines(colors.palette, count);
        lemma_optional_line_whole(Key::Foreground, colors.foreground);
        lemma_optional_line_whole(Key::Background, colors.background);
        if colors.background_opacity is Some {
            lemma_numeral_is_line(colors.background_opacity.unwrap());
            lemma_numeral_is_trimmed(colors.background_opacity.unwrap());
        }
        lemma_optional_line_whole(Key::BackgroundOpacity, colors.background_opacity);
        assert forall|i: int| 0 <= i < count implies is_line_value(#[trigger] colors.palette[i]) by {}
        assert forall|i: int| 0 <= i < count implies is_trimmed_value(
            #[trigger] colors.palette[i],
        ) by {}
        lemma_palette_lines_whole(colors.palette, count);
        lemma_whole_lines_concat(foreground, background);
        lemma_whole_lines_concat(foreground + background, opacity);
        lemma_whole_lines_concat(foreground + background + opacity, palette);
        if colors.active_preset is Some {
            let first = seq![entry_line(Key::ActivePreset, colors.active_preset.unwrap())];
            lemma_entry_line_whole(Key::ActivePreset, colors.active_preset.unwrap());
            lemma_whole_lines_concat(first, override_lines(colors));
        }
    }
}

} // verus!
