//! The settings text: lines of the form `key = value`, the keys that the
//! application knows, and the scope that each key belongs to.

use vstd::prelude::*;
use vstd::string::*;

use crate::config::PALETTE_SIZE;
use crate::numeral::{decimal, decimal_string, palette_index, palette_index_at};
use crate::text::{find_char, position, stretch_is, trim, trimmed_bounds};

pub mod parse;
pub mod readback;
pub mod render;
pub mod rewrite;
pub mod written;

verus! {

/// A key of the settings text.
#[derive(Debug, Clone, Copy, PartialEq, Eq, Structural)]
pub enum Key {
    /// `titlebar`: whether the window shows its title bar.
    TitleBar,
    /// `active_preset`: the name of the preset in use.
    ActivePreset,
    /// `foreground`: the colour of text.
    Foreground,
    /// `background`: the colour behind text.
    Background,
    /// `background_opacity`: how opaque the background is.
    BackgroundOpacity,
    /// `color0` to `color15`: an entry of the palette.
    Color(usize),
    /// `font_family`: the family of the font.
    FontFamily,
    /// `font_size`: the size of the font.
    FontSize,
}

/// A part of the settings that is written as a whole.
#[derive(Debug, Clone, Copy, PartialEq, Eq, Structural)]
pub enum Scope {
    TitleBar,
    Colors,
    FontFamily,
    FontSize,
}

impl Key {
    /// The scope that the key belongs to.
    pub open spec fn spec_scope(self) -> Scope {
        match self {
            Key::TitleBar => Scope::TitleBar,
            Key::FontFamily => Scope::FontFamily,
            Key::FontSize => Scope::FontSize,
            _ => Scope::Colors,
        }
    }

    /// The key as it is written.
    pub open spec fn text(self) -> Seq<char> {
        match self {
            Key::TitleBar => "titlebar"@,
            Key::ActivePreset => "active_preset"@,
            Key::Foreground => "foreground"@,
            Key::Background => "background"@,
            Key::BackgroundOpacity => "background_opacity"@,
            Key::Color(index) => "color"@ + decimal(index as nat),
            Key::FontFamily => "font_family"@,
            Key::FontSize => "font_size"@,
        }
    }

    /// Whether the key is one that the settings text can hold: a palette key
    /// names an entry of the palette.
    pub open spec fn is_valid(self) -> bool {
        self matches Key::Color(index) ==> index < PALETTE_SIZE
    }

    /// The scope that the key belongs to.
    pub fn scope(&self) -> (r: Scope)
        ensures
            r == self.spec_scope(),
    {
        match self {
            Key::TitleBar => Scope::TitleBar,
            Key::FontFamily => Scope::FontFamily,
            Key::FontSize => Scope::FontSize,
            _ => Scope::Colors,
        }
    }

    /// The key as it is written.
    pub fn to_text(&self) -> (r: String)
        ensures
            r@ == self.text(),
    {
        match self {
            Key::TitleBar => String::from_str("titlebar"),
            Key::ActivePreset => String::from_str("active_preset"),
            Key::Foreground => String::from_str("foreground"),
            Key::Background => String::from_str("background"),
            Key::BackgroundOpacity => String::from_str("background_opacity"),
            Key::Color(index) => {
                let digits = decimal_string(*index);
                String::from_str("color").concat(digits.as_str())
            },
            Key::FontFamily => String::from_str("font_family"),
            Key::FontSize => String::from_str("font_size"),
        }
    }
}

/// The key that `name` stands for, if it is one. A palette key is `color`
/// followed by the index of an entry of the palette.
pub open spec fn key_of(name: Seq<char>) -> Option<Key> {
    if name == "titlebar"@ {
        Some(Key::TitleBar)
    } else if name == "active_preset"@ {
        Some(Key::ActivePreset)
    } else if name == "foreground"@ {
        Some(Key::Foreground)
    } else if name == "background"@ {
        Some(Key::Background)
    } else if name == "background_opacity"@ {
        Some(Key::BackgroundOpacity)
    } else if name == "font_family"@ {
        Some(Key::FontFamily)
    } else if name == "font_size"@ {
        Some(Key::FontSize)
    } else if name.len() >= 5 && name.take(5) == "color"@ {
        match palette_index(name.skip(5)) {
            Some(index) => Some(Key::Color(index)),
            None => None,
        }
    } else {
        None
    }
}

/// The two sides of a line: what stands before its first `=` and what stands
/// after it, each without the white space around it. A line without `=` has
/// no sides.
pub open spec fn entry_of(line: Seq<char>) -> Option<(Seq<char>, Seq<char>)> {
    let n = position(line, '=') as int;
    if n < line.len() {
        Some((trim(line.take(n)), trim(line.skip(n + 1))))
    } else {
        None
    }
}

/// The key and the value of a line whose left side is a known key.
pub open spec fn recognized(line: Seq<char>) -> Option<(Key, Seq<char>)> {
    match entry_of(line) {
        Some((name, value)) => match key_of(name) {
            Some(key) => Some((key, value)),
            None => None,
        },
        None => None,
    }
}

/// Whether `line` belongs to `scope`: it is a line with a known key of that
/// scope.
pub open spec fn in_scope(line: Seq<char>, scope: Scope) -> bool {
    match recognized(line) {
        Some((key, _)) => key.spec_scope() == scope,
        None => false,
    }
}

/// The key that the stretch `from..to` of `text` stands for.
pub fn key_at(text: &Vec<char>, from: usize, to: usize) -> (r: Option<Key>)
    requires
        from <= to <= text.len(),
    ensures
        r == key_of(text@.subrange(from as int, to as int)),
{
    let ghost name = text@.subrange(from as int, to as int);
    if stretch_is(text, from, to, "titlebar") {
        Some(Key::TitleBar)
    } else if stretch_is(text, from, to, "active_preset") {
        Some(Key::ActivePreset)
    } else if stretch_is(text, from, to, "foreground") {
        Some(Key::Foreground)
    } else if stretch_is(text, from, to, "background") {
        Some(Key::Background)
    } else if stretch_is(text, from, to, "background_opacity") {
        Some(Key::BackgroundOpacity)
    } else if stretch_is(text, from, to, "font_family") {
        Some(Key::FontFamily)
    } else if stretch_is(text, from, to, "font_size") {
        Some(Key::FontSize)
    } else if to - from >= 5 && stretch_is(text, from, from + 5, "color") {
        proof {
            assert(name.take(5) =~= text@.subrange(from as int, from + 5));
            assert(name.skip(5) =~= text@.subrange(from + 5, to as int));
        }
        match palette_index_at(text, from + 5, to) {
            Some(index) => Some(Key::Color(index)),
            None => None,
        }
    } else {
        proof {
            if to - from >= 5 {
                assert(name.take(5) =~= text@.subrange(from as int, from + 5));
            }
        }
        None
    }
}

/// The key of a line and the bounds of its value, where the line has a known
/// key.
pub fn entry_at(line: &Vec<char>) -> (r: Option<(Key, usize, usize)>)
    ensures
        match r {
            Some((key, from, to)) => from <= to <= line.len() && recognized(line@) == Some(
                (key, line@.subrange(from as int, to as int)),
            ),
            None => recognized(line@) is None,
        },
{
    let len: usize = line.len();
    let n: usize = find_char(line, 0, len, '=');
    proof {
        assert(line@.subrange(0, len as int) =~= line@);
    }
    if n == len {
        return None;
    }
    let (name_from, name_to) = trimmed_bounds(line, 0, n);
    let (value_from, value_to) = trimmed_bounds(line, n + 1, len);
    proof {
        assert(line@.subrange(0, n as int) =~= line@.take(n as int));
        assert(line@.subrange(n + 1, len as int) =~= line@.skip(n + 1));
    }
    match key_at(line, name_from, name_to) {
        Some(key) => Some((key, value_from, value_to)),
        None => None,
    }
}

} // verus!
