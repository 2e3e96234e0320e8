//! Writing one scope of the settings into their text.
//!
//! A scope is written by leaving out every line of the text that belongs to
//! it and adding fresh lines for its new value at the end. Lines of other
//! scopes, and lines that are no settings at all, stay as they are and in
//! their order.

use vstd::prelude::*;
use vstd::string::*;

use crate::codec::{entry_at, in_scope, Key, Scope};
use crate::config::{ColorBundle, ColorSchemePreset, ColorSettings, PALETTE_SIZE};
use crate::numeral::Numeral;
use crate::text::{chars_of, texts};

verus! {

/// The lines of `lines` that do not belong to `scope`, in their order.
pub open spec fn without_scope(lines: Seq<Seq<char>>, scope: Scope) -> Seq<Seq<char>>
    decreases lines.len(),
{
    if lines.len() == 0 {
        Seq::empty()
    } else if in_scope(lines.last(), scope) {
        without_scope(lines.drop_last(), scope)
    } else {
        without_scope(lines.drop_last(), scope).push(lines.last())
    }
}

/// The line that gives `key` the value `value`.
pub open spec fn entry_line(key: Key, value: Seq<char>) -> Seq<char> {
    key.text() + seq![' ', '=', ' '] + value
}

/// The line for a value that may be unset: none where it is.
pub open spec fn optional_line(key: Key, value: Option<Seq<char>>) -> Seq<Seq<char>> {
    match value {
        Some(v) => seq![entry_line(key, v)],
        None => Seq::empty(),
    }
}

/// The lines for the first `n` entries of a palette: one for each entry that
/// is set, in the order of the palette.
pub open spec fn palette_lines(palette: Seq<Option<Seq<char>>>, n: nat) -> Seq<Seq<char>>
    decreases n,
{
    if n == 0 {
        Seq::empty()
    } else {
        palette_lines(palette, (n - 1) as nat) + optional_line(
            Key::Color((n - 1) as usize),
            palette[n - 1],
        )
    }
}

/// The number of palette entries that are written: all of them, but none
/// beyond the size of a palette.
pub open spec fn palette_count(palette: Seq<Option<Seq<char>>>) -> nat {
    if palette.len() < PALETTE_SIZE {
        palette.len()
    } else {
        PALETTE_SIZE as nat
    }
}

/// The lines for the colours themselves: foreground, background, opacity
/// and palette, each only where it is set.
pub open spec fn override_lines(colors: ColorBundle) -> Seq<Seq<char>> {
    optional_line(Key::Foreground, colors.foreground) + optional_line(
        Key::Background,
        colors.background,
    ) + optional_line(Key::BackgroundOpacity, colors.background_opacity) + palette_lines(
        colors.palette,
        palette_count(colors.palette),
    )
}

/// The fresh lines for colour settings. With a preset there is a line for
/// its name, and the colours themselves follow only where the name is not
/// that of a known preset. Without a preset there are only the colours.
pub open spec fn color_lines(colors: ColorBundle) -> Seq<Seq<char>> {
    match colors.active_preset {
        Some(name) => if ColorSchemePreset::spec_from_name(name) is None {
            seq![entry_line(Key::ActivePreset, name)] + override_lines(colors)
        } else {
            seq![entry_line(Key::ActivePreset, name)]
        },
        None => override_lines(colors),
    }
}

/// The text of a truth value.
pub open spec fn bool_text(value: bool) -> Seq<char> {
    if value {
        "true"@
    } else {
        "false"@
    }
}

/// The lines after the title bar's visibility is written into `existing`.
pub open spec fn render_titlebar_lines(existing: Seq<Seq<char>>, visible: bool) -> Seq<Seq<char>> {
    without_scope(existing, Scope::TitleBar).push(entry_line(Key::TitleBar, bool_text(visible)))
}

/// The lines after the colours are written into `existing`.
pub open spec fn render_colors_lines(existing: Seq<Seq<char>>, colors: ColorBundle) -> Seq<
    Seq<char>,
> {
    without_scope(existing, Scope::Colors) + color_lines(colors)
}

/// The lines after the font family is written into `existing`.
pub open spec fn render_font_family_lines(existing: Seq<Seq<char>>, family: Seq<char>) -> Seq<
    Seq<char>,
> {
    without_scope(existing, Scope::FontFamily).push(entry_line(Key::FontFamily, family))
}

/// The lines after the font size is written into `existing`.
pub open spec fn render_font_size_lines(existing: Seq<Seq<char>>, size: Seq<char>) -> Seq<
    Seq<char>,
> {
    without_scope(existing, Scope::FontSize).push(entry_line(Key::FontSize, size))
}

/// Whether a line belongs to `scope`.
pub fn line_in_scope(line: &str, scope: Scope) -> (r: bool)
    ensures
        r == in_scope(line@, scope),
{
    let chars = chars_of(line);
    match entry_at(&chars) {
        Some((key, _, _)) => key.scope() == scope,
        None => false,
    }
}

/// The lines of `existing` that do not belong to `scope`.
pub fn retain_outside(existing: &Vec<String>, scope: Scope) -> (kept: Vec<String>)
    ensures
        texts(kept@) == without_scope(texts(existing@), scope),
{
    let mut kept: Vec<String> = Vec::new();
    let n: usize = existing.len();
    let mut i: usize = 0;
    assert(texts(kept@) =~= Seq::<Seq<char>>::empty());
    while i < n
        invariant
            n == existing.len(),
            i <= n,
            texts(kept@) == without_scope(texts(existing@).take(i as int), scope),
        decreases n - i,
    {
        let ghost before = texts(kept@);
        proof {
            let next = texts(existing@).take(i + 1);
            assert(next.drop_last() =~= texts(existing@).take(i as int));
            assert(next.last() == existing@[i as int]@);
        }
        if !line_in_scope(existing[i].as_str(), scope) {
            kept.push(existing[i].clone());
            assert(texts(kept@) =~= before.push(existing@[i as int]@));
        }
        i += 1;
    }
    proof {
        assert(texts(existing@).take(n as int) =~= texts(existing@));
    }
    kept
}

/// The line that gives `key` the value `value`.
pub fn make_line(key: Key, value: &str) -> (r: String)
    ensures
        r@ == entry_line(key, value@),
{
    proof {
        reveal_strlit(" = ");
        assert(" = "@ =~= seq![' ', '=', ' ']);
    }
    key.to_text().concat(" = ").concat(value)
}

/// Adds the line for `key` to `lines`.
fn push_line(lines: &mut Vec<String>, key: Key, value: &str)
    ensures
        texts(final(lines)@) == texts(old(lines)@).push(entry_line(key, value@)),
{
    let ghost before = texts(lines@);
    lines.push(make_line(key, value));
    assert(texts(lines@) =~= before.push(entry_line(key, value@)));
}

/// Adds the line for `key` to `lines` where `value` is set.
fn push_optional(lines: &mut Vec<String>, key: Key, value: &Option<String>)
    ensures
        texts(final(lines)@) == texts(old(lines)@) + optional_line(
            key,
            crate::config::text_of(*value),
        ),
{
    let ghost before = texts(lines@);
    match value {
        Some(v) => {
            push_line(lines, key, v.as_str());
            assert(before.push(entry_line(key, v@)) =~= before + seq![entry_line(key, v@)]);
        },
        None => {
            assert(before + Seq::<Seq<char>>::empty() =~= before);
        },
    }
}

/// Adds the lines for the colours themselves to `lines`.
fn push_overrides(lines: &mut Vec<String>, settings: &ColorSettings)
    ensures
        texts(final(lines)@) == texts(old(lines)@) + override_lines(settings@),
{
    let ghost before = texts(lines@);
    let ghost colors = settings@;
    push_optional(lines, Key::Foreground, &settings.foreground);
    push_optional(lines, Key::Background, &settings.background);
    match &settings.background_opacity {
        Some(opacity) => {
            push_line(lines, Key::BackgroundOpacity, opacity.as_str());
        },
        None => {},
    }
    let ghost head = optional_line(Key::Foreground, colors.foreground) + optional_line(
        Key::Background,
        colors.background,
    ) + optional_line(Key::BackgroundOpacity, colors.background_opacity);
    assert(texts(lines@) =~= before + head);
    let count: usize = if settings.palette.len() < PALETTE_SIZE {
        settings.palette.len()
    } else {
        PALETTE_SIZE
    };
    let mut i: usize = 0;
    assert(before + head + palette_lines(colors.palette, 0) =~= before + head);
    while i < count
        invariant
            i <= count <= settings.palette.len(),
            count == palette_count(colors.palette),
            colors == settings@,
            texts(lines@) == before + head + palette_lines(colors.palette, i as nat),
        decreases count - i,
    {
        let ghost so_far = palette_lines(colors.palette, i as nat);
        push_optional(lines, Key::Color(i), &settings.palette[i]);
        proof {
            let line = optional_line(Key::Color(i), colors.palette[i as int]);
            assert(before + head + so_far + line =~= before + head + (so_far + line));
        }
        i += 1;
    }
    assert(before + head + palette_lines(colors.palette, count as nat) =~= before + (head
        + palette_lines(colors.palette, count as nat)));
}

/// Writes the title bar's visibility into the lines of a settings text.
pub fn render_titlebar(existing_lines: &Vec<String>, visible: bool) -> (r: Vec<String>)
    ensures
        texts(r@) == render_titlebar_lines(texts(existing_lines@), visible),
{
    let mut lines = retain_outside(existing_lines, Scope::TitleBar);
    let value = if visible {
        "true"
    } else {
        "false"
    };
    push_line(&mut lines, Key::TitleBar, value);
    lines
}

/// Writes colour settings into the lines of a settings text.
pub fn render_colors(existing_lines: &Vec<String>, settings: &ColorSettings) -> (r: Vec<String>)
    ensures
        texts(r@) == render_colors_lines(texts(existing_lines@), settings@),
{
    let mut lines = retain_outside(existing_lines, Scope::Colors);
    let ghost kept = texts(lines@);
    match &settings.active_preset {
        Some(name) => {
            push_line(&mut lines, Key::ActivePreset, name.as_str());
            let ghost first = seq![entry_line(Key::ActivePreset, name@)];
            assert(kept.push(entry_line(Key::ActivePreset, name@)) =~= kept + first);
            if ColorSchemePreset::from_name(name.as_str()).is_none() {
                push_overrides(&mut lines, settings);
                assert(kept + first + override_lines(settings@) =~= kept + (first
                    + override_lines(settings@)));
            }
        },
        None => {
            push_overrides(&mut lines, settings);
        },
    }
    lines
}

/// Writes the font family into the lines of a settings text.
pub fn render_font_family(existing_lines: &Vec<String>, family: &str) -> (r: Vec<String>)
    ensures
        texts(r@) == render_font_family_lines(texts(existing_lines@), family@),
{
    let mut lines = retain_outside(existing_lines, Scope::FontFamily);
    push_line(&mut lines, Key::FontFamily, family);
    lines
}

/// Writes the font size into the lines of a settings text.
pub fn render_font_size(existing_lines: &Vec<String>, size: &Numeral) -> (r: Vec<String>)
    ensures
        texts(r@) == render_font_size_lines(texts(existing_lines@), size@),
{
    let mut lines = retain_outside(existing_lines, Scope::FontSize);
    push_line(&mut lines, Key::FontSize, size.as_str());
    lines
}

} // verus!
