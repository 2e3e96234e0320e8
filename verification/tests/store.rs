use better_terminal::codec::parse::{parse_app_settings, parse_color_settings};
use better_terminal::codec::render::render_colors;
use better_terminal::config::{
    config_path_for, config_path_in, get_config_path, get_preset_colors, join_path,
    ColorSchemePreset, ColorSettings, CONFIG_DIR, CONFIG_FILE,
};
use better_terminal::numeral::Numeral;
use better_terminal::store::{with_colors, with_font_family, with_font_size, with_titlebar};
use better_terminal::text::join;

fn custom_colors() -> ColorSettings {
    let mut colors = ColorSettings::default();
    colors.foreground = Some("#ffffff".to_string());
    colors.background = Some("rgba(0, 0, 0, 1.0)".to_string());
    colors.background_opacity = Numeral::parse("0.85");
    colors.palette[0] = Some("#000000".to_string());
    colors.palette[15] = Some("#abcdef".to_string());
    colors
}

fn same_colors(a: &ColorSettings, b: &ColorSettings) -> bool {
    a.foreground == b.foreground
        && a.background == b.background
        && a.background_opacity.as_ref().map(|n| n.as_str())
            == b.background_opacity.as_ref().map(|n| n.as_str())
        && a.palette == b.palette
        && a.active_preset == b.active_preset
}

#[test]
fn colors_without_a_preset_round_trip() {
    let colors = custom_colors();
    let text = join(&render_colors(&Vec::new(), &colors));
    assert!(same_colors(&parse_color_settings(&text), &colors));
    let unset = ColorSettings::default();
    let text = join(&render_colors(&Vec::new(), &unset));
    assert_eq!(text, "");
    assert!(same_colors(&parse_color_settings(&text), &unset));
}

#[test]
fn colors_with_an_unknown_preset_round_trip() {
    let mut colors = custom_colors();
    colors.active_preset = Some("My Theme".to_string());
    let text = join(&render_colors(&Vec::new(), &colors));
    assert!(same_colors(&parse_color_settings(&text), &colors));
}

#[test]
fn a_known_preset_wins_over_the_colors_handed_in() {
    let mut colors = custom_colors();
    colors.active_preset = Some("TokyoNight".to_string());
    let text = join(&render_colors(&Vec::new(), &colors));
    let read = parse_color_settings(&text);
    assert!(same_colors(&read, &get_preset_colors(&ColorSchemePreset::TokyoNight)));
    assert_eq!(read.active_preset.as_deref(), Some("TokyoNight"));
}

#[test]
fn written_colors_are_read_whatever_the_text_held() {
    let before = "active_preset = Nord\nfoo = bar\ncolor4 = #444444\ntitlebar = false\n\
                  font_family = Hack\nforeground=#123";
    let colors = custom_colors();
    let after = with_colors(before, &colors);
    let settings = parse_app_settings(&after);
    assert!(same_colors(&settings.colors, &colors));
    assert!(!settings.title_bar_visible);
    assert_eq!(settings.font_family, "Hack");
    assert_eq!(
        after,
        "foo = bar\ntitlebar = false\nfont_family = Hack\nforeground = #ffffff\n\
         background = rgba(0, 0, 0, 1.0)\nbackground_opacity = 0.85\ncolor0 = #000000\n\
         color15 = #abcdef"
    );
}

#[test]
fn title_bar_is_written_into_the_text() {
    assert_eq!(with_titlebar("", true), "titlebar = true");
    assert_eq!(with_titlebar("", false), "titlebar = false");
    assert_eq!(with_titlebar("titlebar = true\nfoo\n", false), "foo\ntitlebar = false");
    assert_eq!(
        with_titlebar("a = 1\r\ntitlebar=false\r\nb = 2\r\n", true),
        "a = 1\nb = 2\ntitlebar = true"
    );
    assert!(!parse_app_settings(&with_titlebar("titlebar = true", false)).title_bar_visible);
    assert!(parse_app_settings(&with_titlebar("titlebar = false", true)).title_bar_visible);
}

#[test]
fn font_settings_are_written_into_the_text() {
    let text = with_font_family("font_size = 9\nfont_family = Old", "Fira Code");
    assert_eq!(text, "font_size = 9\nfont_family = Fira Code");
    let size = Numeral::parse("13").unwrap();
    let text = with_font_size(&text, &size);
    assert_eq!(text, "font_family = Fira Code\nfont_size = 13");
    let settings = parse_app_settings(&text);
    assert_eq!(settings.font_family, "Fira Code");
    assert_eq!(settings.font_size.as_str(), "13");
    assert_eq!(settings.font_size.as_str().parse::<f64>().unwrap(), 13.0);
}

#[test]
fn writing_twice_gives_the_same_text() {
    let before = "foo = bar\ntitlebar = true\ncolor1 = #111111\n\nfont_size = 9\n";
    let colors = custom_colors();
    let once = with_colors(before, &colors);
    assert_eq!(with_colors(&once, &colors), once);
    let once = with_titlebar(before, false);
    assert_eq!(with_titlebar(&once, false), once);
    let once = with_font_family(before, "Hack");
    assert_eq!(with_font_family(&once, "Hack"), once);
    let size = Numeral::parse("11").unwrap();
    let once = with_font_size(before, &size);
    assert_eq!(with_font_size(&once, &size), once);
}

#[test]
fn a_carriage_return_before_the_end_of_a_text_is_lost_on_the_second_writing() {
    let once = with_titlebar("foo\r", true);
    assert_eq!(once, "foo\r\ntitlebar = true");
    assert_eq!(with_titlebar(&once, true), "foo\ntitlebar = true");
}

#[test]
fn settings_survive_saving_and_loading() {
    let mut text = String::new();
    let settings = parse_app_settings(&text);
    assert!(settings.title_bar_visible);
    assert!(settings.colors.active_preset.is_none());

    let mut colors = ColorSettings::default();
    colors.active_preset = Some("Nord".to_string());
    text = with_colors(&text, &colors);
    assert_eq!(text, "active_preset = Nord");
    let loaded = parse_app_settings(&text).colors;
    assert!(same_colors(&loaded, &get_preset_colors(&ColorSchemePreset::Nord)));
    assert_eq!(loaded.active_preset.as_deref(), Some("Nord"));

    let mut colors = ColorSettings::default();
    colors.foreground = Some("#ffffff".to_string());
    text = with_colors(&text, &colors);
    assert_eq!(text, "foreground = #ffffff");
    let loaded = parse_app_settings(&text).colors;
    assert_eq!(loaded.foreground.as_deref(), Some("#ffffff"));
    assert!(loaded.active_preset.is_none());
    assert!(loaded.background.is_none());
    assert_eq!(loaded.palette, vec![None; 16]);
}

#[test]
fn literal_color_lines_of_an_unknown_preset_are_kept_on_saving() {
    let mut colors = get_preset_colors(&ColorSchemePreset::Monokai);
    colors.active_preset = Some("Monokai Mine".to_string());
    let text = with_colors("", &colors);
    let loaded = parse_color_settings(&text);
    assert!(same_colors(&loaded, &colors));
    assert_eq!(text.lines().count(), 19);
}

#[test]
fn the_settings_file_lies_below_the_home_directory() {
    assert_eq!(CONFIG_DIR, ".config/better-terminal");
    assert_eq!(CONFIG_FILE, "better-terminal.conf");
    assert_eq!(
        config_path_in("/home/ada"),
        "/home/ada/.config/better-terminal/better-terminal.conf"
    );
    assert_eq!(
        config_path_in("/home/ada/"),
        "/home/ada/.config/better-terminal/better-terminal.conf"
    );
    assert_eq!(config_path_in("/"), "/.config/better-terminal/better-terminal.conf");
    assert_eq!(config_path_in(""), ".config/better-terminal/better-terminal.conf");
    assert_eq!(join_path("a".to_string(), "b"), "a/b");
    assert_eq!(join_path("a/".to_string(), "b"), "a/b");
    assert_eq!(join_path(String::new(), "b"), "b");
}

#[test]
fn a_path_is_found_exactly_where_a_home_directory_is() {
    assert_eq!(config_path_for(None), None);
    assert_eq!(
        config_path_for(Some("/home/ada".to_string())).as_deref(),
        Some("/home/ada/.config/better-terminal/better-terminal.conf")
    );
    assert_eq!(
        config_path_for(Some(String::new())).as_deref(),
        Some(".config/better-terminal/better-terminal.conf")
    );
}

#[test]
fn paths_are_joined_as_the_standard_library_joins_them() {
    for home in ["/home/ada", "/home/ada/", "/", "", "relative", "/tmp/x y/é"] {
        let expected = std::path::PathBuf::from(home).join(CONFIG_DIR).join(CONFIG_FILE);
        assert_eq!(Some(config_path_in(home).as_str()), expected.to_str(), "{:?}", home);
    }
}

#[test]
fn the_path_of_the_current_user_is_derived_from_the_home_directory() {
    let expected = dirs::home_dir()
        .and_then(|home| home.to_str().map(|h| h.to_string()))
        .map(|home| config_path_in(&home));
    assert_eq!(get_config_path(), expected);
    if let Some(path) = get_config_path() {
        assert!(path.ends_with(".config/better-terminal/better-terminal.conf"));
    }
}
