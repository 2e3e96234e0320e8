//! Updates of the settings text as a whole: the text is split into lines,
//! one scope is written into the lines, and the lines are joined again.

use vstd::prelude::*;

use crate::codec::render::{
    render_colors, render_colors_lines, render_font_family, render_font_family_lines,
    render_font_size, render_font_size_lines, render_titlebar, render_titlebar_lines,
};
use crate::codec::readback::{
    colors_read_back, law_colors_written_then_read, law_font_family_written_then_read,
    law_font_size_written_then_read, law_parse_joined, law_titlebar_written_then_read,
};
use crate::codec::rewrite::{
    law_render_colors_twice, law_render_font_family_twice, law_render_font_size_twice,
    law_render_titlebar_twice, lemma_without_scope_plain, lemma_written_lines_stable,
};
use crate::codec::written::{
    can_be_stored, lemma_all_lines_concat, lemma_color_lines_whole, lemma_entry_line_whole,
    lemma_numeral_is_line, lemma_numeral_is_trimmed, names_known_preset,
};
use crate::codec::parse::parse_text;
use crate::codec::render::{bool_text, color_lines, entry_line, without_scope};
use crate::codec::{Key, Scope};
use crate::config::{ColorBundle, ColorSettings, SettingsModel};
use crate::numeral::{is_numeral, Numeral};
use crate::text::{
    has_plain_endings, is_line, is_stable, is_trimmed, join, join_lines, lemma_split_lines_plain, lemma_split_of_join, lines_of, split_lines,
};

verus! {

/// The text after the title bar's visibility is written into it.
pub open spec fn titlebar_written(text: Seq<char>, visible: bool) -> Seq<char> {
    join_lines(render_titlebar_lines(split_lines(text), visible))
}

/// The text after colour settings are written into it.
pub open spec fn colors_written(text: Seq<char>, colors: ColorBundle) -> Seq<char> {
    join_lines(render_colors_lines(split_lines(text), colors))
}

/// The text after the font family is written into it.
pub open spec fn font_family_written(text: Seq<char>, family: Seq<char>) -> Seq<char> {
    join_lines(render_font_family_lines(split_lines(text), family))
}

/// The text after the font size is written into it.
pub open spec fn font_size_written(text: Seq<char>, size: Seq<char>) -> Seq<char> {
    join_lines(render_font_size_lines(split_lines(text), size))
}

/// Writes the title bar's visibility into a settings text.
pub fn with_titlebar(raw: &str, visible: bool) -> (r: String)
    ensures
        r@ == titlebar_written(raw@, visible),
{
    let lines = lines_of(raw);
    join(&render_titlebar(&lines, visible))
}

/// Writes colour settings into a settings text.
pub fn with_colors(raw: &str, settings: &ColorSettings) -> (r: String)
    ensures
        r@ == colors_written(raw@, settings@),
{
    let lines = lines_of(raw);
    join(&render_colors(&lines, settings))
}

/// Writes the font family into a settings text.
pub fn with_font_family(raw: &str, family: &str) -> (r: String)
    ensures
        r@ == font_family_written(raw@, family@),
{
    let lines = lines_of(raw);
    join(&render_font_family(&lines, family))
}

/// Writes the font size into a settings text.
pub fn with_font_size(raw: &str, size: &Numeral) -> (r: String)
    ensures
        r@ == font_size_written(raw@, size@),
{
    let lines = lines_of(raw);
    join(&render_font_size(&lines, size))
}

/// Colour settings that are written into a text are read from it again,
/// whatever the text held before, and the other settings are read as before.
/// Where the settings name a known preset, the colours that are read are the
/// preset's, whatever colours were handed in with the name.
pub proof fn law_colors_stored_then_loaded(text: Seq<char>, colors: ColorBundle)
    requires
        !names_known_preset(colors) ==> can_be_stored(colors),
    ensures
        parse_text(colors_written(text, colors)) == (SettingsModel {
            colors: colors_read_back(colors),
            ..parse_text(text)
        }),
{
    let existing = split_lines(text);
    let kept = without_scope(existing, Scope::Colors);
    lemma_split_lines_plain(text);
    lemma_without_scope_plain(existing, Scope::Colors);
    lemma_color_lines_whole(colors);
    lemma_all_lines_concat(kept, color_lines(colors));
    law_parse_joined(render_colors_lines(existing, colors));
    law_colors_written_then_read(existing, colors);
}

/// The title bar's visibility that is written into a text is read from it
/// again, and the other settings are read as before.
pub proof fn law_titlebar_stored_then_loaded(text: Seq<char>, visible: bool)
    ensures
        parse_text(titlebar_written(text, visible)) == (SettingsModel {
            title_bar_visible: visible,
            ..parse_text(text)
        }),
{
    let existing = split_lines(text);
    let kept = without_scope(existing, Scope::TitleBar);
    let fresh = entry_line(Key::TitleBar, bool_text(visible));
    lemma_split_lines_plain(text);
    lemma_without_scope_plain(existing, Scope::TitleBar);
    reveal_strlit("true");
    reveal_strlit("false");
    assert(is_line(bool_text(visible)) && is_trimmed(bool_text(visible)));
    lemma_entry_line_whole(Key::TitleBar, bool_text(visible));
    assert(kept.push(fresh) =~= kept + seq![fresh]);
    lemma_all_lines_concat(kept, seq![fresh]);
    law_parse_joined(render_titlebar_lines(existing, visible));
    law_titlebar_written_then_read(existing, visible);
}

/// A font family that is written into a text is read from it again, and the
/// other settings are read as before.
pub proof fn law_font_family_stored_then_loaded(text: Seq<char>, family: Seq<char>)
    requires
        is_trimmed(family),
        is_line(family),
    ensures
        parse_text(font_family_written(text, family)) == (SettingsModel {
            font_family: family,
            ..parse_text(text)
        }),
{
    let existing = split_lines(text);
    let kept = without_scope(existing, Scope::FontFamily);
    let fresh = entry_line(Key::FontFamily, family);
    lemma_split_lines_plain(text);
    lemma_without_scope_plain(existing, Scope::FontFamily);
    lemma_entry_line_whole(Key::FontFamily, family);
    assert(kept.push(fresh) =~= kept + seq![fresh]);
    lemma_all_lines_concat(kept, seq![fresh]);
    law_parse_joined(render_font_family_lines(existing, family));
    law_font_family_written_then_read(existing, family);
}

/// A font size that is written into a text is read from it again, and the
/// other settings are read as before.
pub proof fn law_font_size_stored_then_loaded(text: Seq<char>, size: Seq<char>)
    requires
        is_numeral(size),
    ensures
        parse_text(font_size_written(text, size)) == (SettingsModel {
            font_size: size,
            ..parse_text(text)
        }),
{
    let existing = split_lines(text);
    let kept = without_scope(existing, Scope::FontSize);
    let fresh = entry_line(Key::FontSize, size);
    lemma_split_lines_plain(text);
    lemma_without_scope_plain(existing, Scope::FontSize);
    lemma_numeral_is_line(size);
    lemma_numeral_is_trimmed(size);
    lemma_entry_line_whole(Key::FontSize, size);
    assert(kept.push(fresh) =~= kept + seq![fresh]);
    lemma_all_lines_concat(kept, seq![fresh]);
    law_parse_joined(render_font_size_lines(existing, size));
    law_font_size_written_then_read(existing, size);
}

/// The lines of a text into which colour settings were written are stable
/// where no line of the text ended with a carriage return, the settings can
/// be stored and at least one line was written for them.
pub proof fn lemma_colors_lines_stable(text: Seq<char>, colors: ColorBundle)
    requires
        has_plain_endings(split_lines(text)),
        !names_known_preset(colors) ==> can_be_stored(colors),
        color_lines(colors).len() > 0,
    ensures
        is_stable(render_colors_lines(split_lines(text), colors)),
{
    lemma_split_lines_plain(text);
    lemma_color_lines_whole(colors);
    lemma_written_lines_stable(split_lines(text), Scope::Colors, color_lines(colors));
}

/// The lines of a text into which the title bar's visibility was written are
/// stable where no line of the text ended with a carriage return.
pub proof fn lemma_titlebar_lines_stable(text: Seq<char>, visible: bool)
    requires
        has_plain_endings(split_lines(text)),
    ensures
        is_stable(render_titlebar_lines(split_lines(text), visible)),
{
    let existing = split_lines(text);
    let kept = without_scope(existing, Scope::TitleBar);
    let fresh = entry_line(Key::TitleBar, bool_text(visible));
    lemma_split_lines_plain(text);
    reveal_strlit("true");
    reveal_strlit("false");
    assert(is_line(bool_text(visible)) && is_trimmed(bool_text(visible)));
    lemma_entry_line_whole(Key::TitleBar, bool_text(visible));
    lemma_written_lines_stable(existing, Scope::TitleBar, seq![fresh]);
    assert(kept.push(fresh) =~= kept + seq![fresh]);
}

/// The lines of a text into which a font family was written are stable where
/// no line of the text ended with a carriage return and the family can stand
/// on one line without white space around it.
pub proof fn lemma_font_family_lines_stable(text: Seq<char>, family: Seq<char>)
    requires
        has_plain_endings(split_lines(text)),
        is_line(family),
        is_trimmed(family),
    ensures
        is_stable(render_font_family_lines(split_lines(text), family)),
{
    let existing = split_lines(text);
    let kept = without_scope(existing, Scope::FontFamily);
    let fresh = entry_line(Key::FontFamily, family);
    lemma_split_lines_plain(text);
    lemma_entry_line_whole(Key::FontFamily, family);
    lemma_written_lines_stable(existing, Scope::FontFamily, seq![fresh]);
    assert(kept.push(fresh) =~= kept + seq![fresh]);
}

/// The lines of a text into which a font size was written are stable where
/// no line of the text ended with a carriage return.
pub proof fn lemma_font_size_lines_stable(text: Seq<char>, size: Seq<char>)
    requires
        has_plain_endings(split_lines(text)),
        is_numeral(size),
    ensures
        is_stable(render_font_size_lines(split_lines(text), size)),
{
    let existing = split_lines(text);
    let kept = without_scope(existing, Scope::FontSize);
    let fresh = entry_line(Key::FontSize, size);
    lemma_split_lines_plain(text);
    lemma_numeral_is_line(size);
    lemma_numeral_is_trimmed(size);
    lemma_entry_line_whole(Key::FontSize, size);
    lemma_written_lines_stable(existing, Scope::FontSize, seq![fresh]);
    assert(kept.push(fresh) =~= kept + seq![fresh]);
}

/// Writing the same colour settings into a text twice gives the text that
/// writing them once gives, where the lines of the first writing are stable.
pub proof fn law_colors_written_twice(text: Seq<char>, colors: ColorBundle)
    requires
        is_stable(render_colors_lines(split_lines(text), colors)),
    ensures
        colors_written(colors_written(text, colors), colors) == colors_written(text, colors),
{
    let existing = split_lines(text);
    lemma_split_of_join(render_colors_lines(existing, colors));
    law_render_colors_twice(existing, colors, colors);
}

/// Writing the same visibility of the title bar into a text twice gives the
/// text that writing it once gives, where the lines of the first writing are
/// stable.
pub proof fn law_titlebar_written_twice(text: Seq<char>, visible: bool)
    requires
        is_stable(render_titlebar_lines(split_lines(text), visible)),
    ensures
        titlebar_written(titlebar_written(text, visible), visible) == titlebar_written(
            text,
            visible,
        ),
{
    let existing = split_lines(text);
    lemma_split_of_join(render_titlebar_lines(existing, visible));
    law_render_titlebar_twice(existing, visible, visible);
}

/// Writing the same font family into a text twice gives the text that
/// writing it once gives, where the lines of the first writing are stable.
pub proof fn law_font_family_written_twice(text: Seq<char>, family: Seq<char>)
    requires
        is_stable(render_font_family_lines(split_lines(text), family)),
    ensures
        font_family_written(font_family_written(text, family), family) == font_family_written(
            text,
            family,
        ),
{
    let existing = split_lines(text);
    lemma_split_of_join(render_font_family_lines(existing, family));
    law_render_font_family_twice(existing, family, family);
}

/// Writing the same font size into a text twice gives the text that writing
/// it once gives, where the lines of the first writing are stable.
pub proof fn law_font_size_written_twice(text: Seq<char>, size: Seq<char>)
    requires
        is_stable(render_font_size_lines(split_lines(text), size)),
    ensures
        font_size_written(font_size_written(text, size), size) == font_size_written(text, size),
{
    let existing = split_lines(text);
    lemma_split_of_join(render_font_size_lines(existing, size));
    law_render_font_size_twice(existing, size, size);
}

} // verus!
