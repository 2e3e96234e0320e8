//! Laws of rewriting one scope of the settings lines: what is written twice
//! is there once, and the lines of other scopes stay as they are.

use vstd::prelude::*;
use vstd::string::*;

use crate::codec::{Key, Scope, in_scope};
use crate::codec::render::{
    bool_text, color_lines, entry_line, render_colors_lines, render_font_family_lines,
    render_font_size_lines, render_titlebar_lines, without_scope,
};
use crate::codec::written::{all_in_scope, lemma_color_lines_in_scope, lemma_recognized_line};
use crate::config::ColorBundle;
use crate::text::{
    all_lines, all_whole_lines, has_plain_endings, is_line, is_stable, is_whole_line, strip_cr,
};

verus! {

/// How often `line` occurs among `lines`.
pub open spec fn occurrences(lines: Seq<Seq<char>>, line: Seq<char>) -> nat
    decreases lines.len(),
{
    if lines.len() == 0 {
        0
    } else if lines.last() == line {
        occurrences(lines.drop_last(), line) + 1
    } else {
        occurrences(lines.drop_last(), line)
    }
}

/// Leaving a scope out of two lists of lines and joining them is leaving it
/// out of the joined list.
pub proof fn lemma_without_scope_concat(a: Seq<Seq<char>>, b: Seq<Seq<char>>, scope: Scope)
    ensures
        without_scope(a + b, scope) == without_scope(a, scope) + without_scope(b, scope),
    decreases b.len(),
{
    if b.len() == 0 {
        assert(a + b =~= a);
        assert(without_scope(a, scope) + without_scope(b, scope) =~= without_scope(a, scope));
    } else {
        let whole = a + b;
        assert(whole.drop_last() =~= a + b.drop_last());
        assert(whole.last() == b.last());
        lemma_without_scope_concat(a, b.drop_last(), scope);
        let left = without_scope(a, scope);
        let right = without_scope(b.drop_last(), scope);
        assert((left + right).push(b.last()) =~= left + right.push(b.last()));
    }
}

/// Nothing is left of lines that all belong to the scope.
pub proof fn lemma_without_scope_inside(lines: Seq<Seq<char>>, scope: Scope)
    requires
        all_in_scope(lines, scope),
    ensures
        without_scope(lines, scope) == Seq::<Seq<char>>::empty(),
    decreases lines.len(),
{
    if lines.len() > 0 {
        let rest = lines.drop_last();
        assert forall|i: int| 0 <= i < rest.len() implies in_scope(#[trigger] rest[i], scope) by {
            assert(rest[i] == lines[i]);
        }
        assert(in_scope(lines[lines.len() - 1], scope));
        lemma_without_scope_inside(rest, scope);
    }
}

/// What is left after a scope is taken out holds no line of the scope, so
/// taking the scope out again changes nothing.
pub proof fn lemma_without_scope_again(lines: Seq<Seq<char>>, scope: Scope)
    ensures
        without_scope(without_scope(lines, scope), scope) == without_scope(lines, scope),
    decreases lines.len(),
{
    if lines.len() > 0 {
        lemma_without_scope_again(lines.drop_last(), scope);
        if !in_scope(lines.last(), scope) {
            let kept = without_scope(lines.drop_last(), scope);
            assert(kept.push(lines.last()).drop_last() =~= kept);
        }
    }
}

/// A line outside the scope occurs as often after the scope is taken out as
/// before.
pub proof fn lemma_without_scope_occurrences(
    lines: Seq<Seq<char>>,
    scope: Scope,
    line: Seq<char>,
)
    requires
        !in_scope(line, scope),
    ensures
        occurrences(without_scope(lines, scope), line) == occurrences(lines, line),
    decreases lines.len(),
{
    if lines.len() > 0 {
        lemma_without_scope_occurrences(lines.drop_last(), scope, line);
        if !in_scope(lines.last(), scope) {
            let kept = without_scope(lines.drop_last(), scope);
            assert(kept.push(lines.last()).drop_last() =~= kept);
        }
    }
}

/// The occurrences in a joined list are those of its two parts.
pub proof fn lemma_occurrences_concat(a: Seq<Seq<char>>, b: Seq<Seq<char>>, line: Seq<char>)
    ensures
        occurrences(a + b, line) == occurrences(a, line) + occurrences(b, line),
    decreases b.len(),
{
    if b.len() == 0 {
        assert(a + b =~= a);
    } else {
        let whole = a + b;
        assert(whole.drop_last() =~= a + b.drop_last());
        assert(whole.last() == b.last());
        lemma_occurrences_concat(a, b.drop_last(), line);
    }
}

/// A line outside the scope does not occur among lines of the scope.
pub proof fn lemma_no_occurrence_inside(lines: Seq<Seq<char>>, scope: Scope, line: Seq<char>)
    requires
        all_in_scope(lines, scope),
        !in_scope(line, scope),
    ensures
        occurrences(lines, line) == 0,
    decreases lines.len(),
{
    if lines.len() > 0 {
        let rest = lines.drop_last();
        assert forall|i: int| 0 <= i < rest.len() implies in_scope(#[trigger] rest[i], scope) by {
            assert(rest[i] == lines[i]);
        }
        assert(in_scope(lines[lines.len() - 1], scope));
        lemma_no_occurrence_inside(rest, scope, line);
    }
}

/// Writing a scope a second time undoes the first writing: what was written
/// first is taken out again, and what was kept before is kept.
pub proof fn lemma_rewrite_twice(
    existing: Seq<Seq<char>>,
    scope: Scope,
    first: Seq<Seq<char>>,
    second: Seq<Seq<char>>,
)
    requires
        all_in_scope(first, scope),
    ensures
        without_scope(without_scope(existing, scope) + first, scope) + second == without_scope(
            existing,
            scope,
        ) + second,
{
    lemma_without_scope_concat(without_scope(existing, scope), first, scope);
    lemma_without_scope_again(existing, scope);
    lemma_without_scope_inside(first, scope);
    let kept = without_scope(existing, scope);
    assert(kept + Seq::<Seq<char>>::empty() =~= kept);
}

/// Writing colour settings twice gives what the second writing alone gives:
/// no line of the first writing is left behind. In particular writing the
/// same settings again changes nothing.
pub proof fn law_render_colors_twice(
    existing: Seq<Seq<char>>,
    first: ColorBundle,
    second: ColorBundle,
)
    ensures
        render_colors_lines(render_colors_lines(existing, first), second) == render_colors_lines(
            existing,
            second,
        ),
        render_colors_lines(render_colors_lines(existing, second), second) == render_colors_lines(
            existing,
            second,
        ),
{
    lemma_color_lines_in_scope(first);
    lemma_color_lines_in_scope(second);
    lemma_rewrite_twice(existing, Scope::Colors, color_lines(first), color_lines(second));
    lemma_rewrite_twice(existing, Scope::Colors, color_lines(second), color_lines(second));
}

/// Writing the title bar's visibility twice gives what the second writing
/// alone gives.
pub proof fn law_render_titlebar_twice(existing: Seq<Seq<char>>, first: bool, second: bool)
    ensures
        render_titlebar_lines(render_titlebar_lines(existing, first), second)
            == render_titlebar_lines(existing, second),
{
    let kept = without_scope(existing, Scope::TitleBar);
    let one = entry_line(Key::TitleBar, bool_text(first));
    let two = entry_line(Key::TitleBar, bool_text(second));
    lemma_recognized_line(Key::TitleBar, bool_text(first));
    assert(kept.push(one) =~= kept + seq![one]);
    lemma_rewrite_twice(existing, Scope::TitleBar, seq![one], seq![two]);
    assert(without_scope(kept + seq![one], Scope::TitleBar).push(two) =~= without_scope(
        kept + seq![one],
        Scope::TitleBar,
    ) + seq![two]);
    assert(kept.push(two) =~= kept + seq![two]);
}

/// Writing the font family twice gives what the second writing alone gives.
pub proof fn law_render_font_family_twice(
    existing: Seq<Seq<char>>,
    first: Seq<char>,
    second: Seq<char>,
)
    ensures
        render_font_family_lines(render_font_family_lines(existing, first), second)
            == render_font_family_lines(existing, second),
{
    let kept = without_scope(existing, Scope::FontFamily);
    let one = entry_line(Key::FontFamily, first);
    let two = entry_line(Key::FontFamily, second);
    lemma_recognized_line(Key::FontFamily, first);
    assert(kept.push(one) =~= kept + seq![one]);
    lemma_rewrite_twice(existing, Scope::FontFamily, seq![one], seq![two]);
    assert(without_scope(kept + seq![one], Scope::FontFamily).push(two) =~= without_scope(
        kept + seq![one],
        Scope::FontFamily,
    ) + seq![two]);
    assert(kept.push(two) =~= kept + seq![two]);
}

/// Writing the font size twice gives what the second writing alone gives.
pub proof fn law_render_font_size_twice(
    existing: Seq<Seq<char>>,
    first: Seq<char>,
    second: Seq<char>,
)
    ensures
        render_font_size_lines(render_font_size_lines(existing, first), second)
            == render_font_size_lines(existing, second),
{
    let kept = without_scope(existing, Scope::FontSize);
    let one = entry_line(Key::FontSize, first);
    let two = entry_line(Key::FontSize, second);
    lemma_recognized_line(Key::FontSize, first);
    assert(kept.push(one) =~= kept + seq![one]);
    lemma_rewrite_twice(existing, Scope::FontSize, seq![one], seq![two]);
    assert(without_scope(kept + seq![one], Scope::FontSize).push(two) =~= without_scope(
        kept + seq![one],
        Scope::FontSize,
    ) + seq![two]);
    assert(kept.push(two) =~= kept + seq![two]);
}

/// Writing colour settings keeps every other line: the lines outside the
/// colour scope are the same, in the same order, and each of them occurs as
/// often as before, however often colours are written.
pub proof fn law_render_colors_keeps_other_lines(
    existing: Seq<Seq<char>>,
    colors: ColorBundle,
    line: Seq<char>,
)
    ensures
        without_scope(render_colors_lines(existing, colors), Scope::Colors) == without_scope(
            existing,
            Scope::Colors,
        ),
        !in_scope(line, Scope::Colors) ==> occurrences(
            render_colors_lines(existing, colors),
            line,
        ) == occurrences(existing, line),
{
    let kept = without_scope(existing, Scope::Colors);
    let fresh = color_lines(colors);
    lemma_color_lines_in_scope(colors);
    lemma_without_scope_concat(kept, fresh, Scope::Colors);
    lemma_without_scope_again(existing, Scope::Colors);
    lemma_without_scope_inside(fresh, Scope::Colors);
    assert(kept + Seq::<Seq<char>>::empty() =~= kept);
    if !in_scope(line, Scope::Colors) {
        lemma_occurrences_concat(kept, fresh, line);
        lemma_without_scope_occurrences(existing, Scope::Colors, line);
        lemma_no_occurrence_inside(fresh, Scope::Colors, line);
    }
}

/// Writing the title bar's visibility keeps every other line.
pub proof fn law_render_titlebar_keeps_other_lines(
    existing: Seq<Seq<char>>,
    visible: bool,
    line: Seq<char>,
)
    ensures
        without_scope(render_titlebar_lines(existing, visible), Scope::TitleBar) == without_scope(
            existing,
            Scope::TitleBar,
        ),
        !in_scope(line, Scope::TitleBar) ==> occurrences(
            render_titlebar_lines(existing, visible),
            line,
        ) == occurrences(existing, line),
{
    let kept = without_scope(existing, Scope::TitleBar);
    let fresh = entry_line(Key::TitleBar, bool_text(visible));
    lemma_recognized_line(Key::TitleBar, bool_text(visible));
    lemma_without_scope_again(existing, Scope::TitleBar);
    assert(kept.push(fresh).drop_last() =~= kept);
    if !in_scope(line, Scope::TitleBar) {
        lemma_without_scope_occurrences(existing, Scope::TitleBar, line);
    }
}

/// What is left after a scope is taken out of plain lines are plain lines.
pub proof fn lemma_without_scope_plain(lines: Seq<Seq<char>>, scope: Scope)
    requires
        all_lines(lines),
    ensures
        all_lines(without_scope(lines, scope)),
    decreases lines.len(),
{
    if lines.len() > 0 {
        let rest = lines.drop_last();
        assert forall|i: int| 0 <= i < rest.len() implies is_line(#[trigger] rest[i]) by {
            assert(rest[i] == lines[i]);
        }
        lemma_without_scope_plain(rest, scope);
        assert(is_line(lines[lines.len() - 1]));
    }
}

/// What is left after a scope is taken out of lines without carriage
/// returns at their ends are such lines.
pub proof fn lemma_without_scope_endings(lines: Seq<Seq<char>>, scope: Scope)
    requires
        has_plain_endings(lines),
    ensures
        has_plain_endings(without_scope(lines, scope)),
    decreases lines.len(),
{
    if lines.len() > 0 {
        let rest = lines.drop_last();
        assert forall|i: int| 0 <= i < rest.len() implies strip_cr(#[trigger] rest[i])
            == rest[i] by {
            assert(rest[i] == lines[i]);
        }
        lemma_without_scope_endings(rest, scope);
        assert(strip_cr(lines[lines.len() - 1]) == lines[lines.len() - 1]);
    }
}

/// The lines of a writing are stable where the lines that were there had no
/// carriage returns at their ends and the fresh lines are whole lines, one
/// at least.
pub proof fn lemma_written_lines_stable(
    existing: Seq<Seq<char>>,
    scope: Scope,
    fresh: Seq<Seq<char>>,
)
    requires
        all_lines(existing),
        has_plain_endings(existing),
        all_whole_lines(fresh),
        fresh.len() > 0,
    ensures
        is_stable(without_scope(existing, scope) + fresh),
{
    let kept = without_scope(existing, scope);
    let all = kept + fresh;
    lemma_without_scope_plain(existing, scope);
    lemma_without_scope_endings(existing, scope);
    assert forall|i: int| 0 <= i < all.len() implies is_line(#[trigger] all[i]) && strip_cr(all[i])
        == all[i] by {
        if i < kept.len() {
            assert(all[i] == kept[i]);
        } else {
            assert(all[i] == fresh[i - kept.len()]);
            assert(is_whole_line(fresh[i - kept.len()]));
        }
    }
    assert(all.last() == fresh[fresh.len() - 1]);
}

} // verus!
