use better_terminal::codec::render::{
    line_in_scope, make_line, render_colors, render_font_family, render_font_size,
    render_titlebar, retain_outside,
};
use better_terminal::codec::{Key, Scope};
use better_terminal::config::{get_preset_colors, ColorSchemePreset, ColorSettings};
use better_terminal::numeral::Numeral;

fn lines(all: &[&str]) -> Vec<String> {
    all.iter().map(|l| l.to_string()).collect()
}

fn custom_colors() -> ColorSettings {
    let mut colors = ColorSettings::default();
    colors.foreground = Some("#ffffff".to_string());
    colors.background = Some("rgba(0, 0, 0, 1.0)".to_string());
    colors.background_opacity = Numeral::parse("0.85");
    colors.palette[0] = Some("#000000".to_string());
    colors.palette[9] = Some("#999999".to_string());
    colors.palette[15] = Some("#abcdef".to_string());
    colors
}

#[test]
fn a_line_gives_its_key_a_value() {
    assert_eq!(make_line(Key::TitleBar, "true"), "titlebar = true");
    assert_eq!(make_line(Key::Color(11), "#123456"), "color11 = #123456");
    assert_eq!(make_line(Key::Foreground, ""), "foreground = ");
    assert_eq!(Key::Color(3).scope(), Scope::Colors);
    assert_eq!(Key::ActivePreset.scope(), Scope::Colors);
    assert_eq!(Key::BackgroundOpacity.scope(), Scope::Colors);
    assert_eq!(Key::TitleBar.scope(), Scope::TitleBar);
    assert_eq!(Key::FontFamily.scope(), Scope::FontFamily);
    assert_eq!(Key::FontSize.scope(), Scope::FontSize);
}

#[test]
fn scopes_of_lines() {
    assert!(line_in_scope("titlebar = true", Scope::TitleBar));
    assert!(line_in_scope("  titlebar=1", Scope::TitleBar));
    assert!(!line_in_scope("titlebar", Scope::TitleBar));
    assert!(!line_in_scope("titlebar = true", Scope::Colors));
    assert!(line_in_scope("color15 = x", Scope::Colors));
    assert!(!line_in_scope("color16 = x", Scope::Colors));
    assert!(!line_in_scope("colorful = x", Scope::Colors));
    assert!(line_in_scope("active_preset = Nord", Scope::Colors));
    assert!(line_in_scope("background_opacity = 1", Scope::Colors));
    assert!(line_in_scope("font_size = 1", Scope::FontSize));
    assert!(!line_in_scope("font_size = 1", Scope::FontFamily));
    assert!(!line_in_scope("foo = bar", Scope::Colors));
    assert!(!line_in_scope("", Scope::Colors));
}

#[test]
fn lines_outside_a_scope_are_kept_in_order() {
    let existing = lines(&["a", "color1 = x", "", "titlebar = true", "foreground=y", "b = c"]);
    assert_eq!(
        retain_outside(&existing, Scope::Colors),
        lines(&["a", "", "titlebar = true", "b = c"])
    );
    assert_eq!(
        retain_outside(&existing, Scope::TitleBar),
        lines(&["a", "color1 = x", "", "foreground=y", "b = c"])
    );
    assert_eq!(retain_outside(&existing, Scope::FontSize), existing);
}

#[test]
fn the_title_bar_line_is_replaced_at_the_end() {
    let existing = lines(&["titlebar = true", "foo = bar", "titlebar=false", "color1 = red"]);
    assert_eq!(
        render_titlebar(&existing, false),
        lines(&["foo = bar", "color1 = red", "titlebar = false"])
    );
    assert_eq!(render_titlebar(&lines(&[]), true), lines(&["titlebar = true"]));
}

#[test]
fn colors_without_a_preset_are_written_field_by_field() {
    assert_eq!(
        render_colors(&lines(&[]), &custom_colors()),
        lines(&[
            "foreground = #ffffff",
            "background = rgba(0, 0, 0, 1.0)",
            "background_opacity = 0.85",
            "color0 = #000000",
            "color9 = #999999",
            "color15 = #abcdef",
        ])
    );
    assert_eq!(render_colors(&lines(&["x"]), &ColorSettings::default()), lines(&["x"]));
}

#[test]
fn a_known_preset_is_written_by_its_name_alone() {
    let mut colors = custom_colors();
    colors.active_preset = Some("Nord".to_string());
    assert_eq!(render_colors(&lines(&[]), &colors), lines(&["active_preset = Nord"]));
    let nord = get_preset_colors(&ColorSchemePreset::Nord);
    assert_eq!(render_colors(&lines(&["foo"]), &nord), lines(&["foo", "active_preset = Nord"]));
    colors.active_preset = Some("Custom".to_string());
    assert_eq!(render_colors(&lines(&[]), &colors), lines(&["active_preset = Custom"]));
}

#[test]
fn an_unknown_preset_is_written_with_its_colors() {
    let mut colors = custom_colors();
    colors.active_preset = Some("Mine".to_string());
    assert_eq!(
        render_colors(&lines(&[]), &colors),
        lines(&[
            "active_preset = Mine",
            "foreground = #ffffff",
            "background = rgba(0, 0, 0, 1.0)",
            "background_opacity = 0.85",
            "color0 = #000000",
            "color9 = #999999",
            "color15 = #abcdef",
        ])
    );
}

#[test]
fn palette_entries_beyond_the_sixteenth_are_never_written() {
    let mut colors = ColorSettings::default();
    colors.palette.push(Some("#161616".to_string()));
    colors.palette.push(Some("#171717".to_string()));
    colors.palette[15] = Some("#151515".to_string());
    assert_eq!(render_colors(&lines(&[]), &colors), lines(&["color15 = #151515"]));
    colors.palette.truncate(2);
    colors.palette[1] = Some("#010101".to_string());
    assert_eq!(render_colors(&lines(&[]), &colors), lines(&["color1 = #010101"]));
}

#[test]
fn scoped_rendering_preserves_unrelated_lines() {
    let existing = lines(&[
        "foreground = #111111",
        "foo = bar",
        "color3 = #333333",
        "active_preset = Nord",
        "titlebar = false",
        "color16 = #ffffff",
        "colorful = yes",
    ]);
    let mut current = existing.clone();
    for round in 0..5 {
        let mut colors = custom_colors();
        if round % 2 == 1 {
            colors.active_preset = Some("Monokai".to_string());
        }
        current = render_colors(&current, &colors);
        assert_eq!(current.iter().filter(|l| l.as_str() == "foo = bar").count(), 1);
        assert_eq!(
            retain_outside(&current, Scope::Colors),
            lines(&["foo = bar", "titlebar = false", "color16 = #ffffff", "colorful = yes"])
        );
    }
}

#[test]
fn rendering_twice_adds_no_duplicate_keys() {
    let existing = lines(&["titlebar = true", "foo = bar", "foreground = old"]);
    let colors = custom_colors();
    let once = render_colors(&existing, &colors);
    let twice = render_colors(&once, &colors);
    assert_eq!(once, twice);
    assert_eq!(twice.iter().filter(|l| l.starts_with("foreground")).count(), 1);
    let once = render_titlebar(&existing, false);
    assert_eq!(render_titlebar(&once, false), once);
    assert_eq!(render_titlebar(&render_titlebar(&existing, true), false), once);
    let nord = get_preset_colors(&ColorSchemePreset::Nord);
    assert_eq!(render_colors(&render_colors(&existing, &colors), &nord), render_colors(&existing, &nord));
}

#[test]
fn font_settings_are_written_under_their_own_keys() {
    let existing = lines(&["font_family = Old", "font_size = 9", "foreground = #fff"]);
    assert_eq!(
        render_font_family(&existing, "Fira Code"),
        lines(&["font_size = 9", "foreground = #fff", "font_family = Fira Code"])
    );
    let size = Numeral::parse("10.5").unwrap();
    assert_eq!(
        render_font_size(&existing, &size),
        lines(&["font_family = Old", "foreground = #fff", "font_size = 10.5"])
    );
    let once = render_font_family(&existing, "Mono");
    assert_eq!(render_font_family(&once, "Mono"), once);
    let once = render_font_size(&existing, &size);
    assert_eq!(render_font_size(&once, &size), once);
}
