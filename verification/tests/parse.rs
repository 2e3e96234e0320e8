use better_terminal::codec::parse::{
    parse_app_settings, parse_color_settings, parse_settings_lines, parse_title_bar_setting,
};
use better_terminal::codec::{entry_at, key_at, Key};
use better_terminal::config::{get_preset_colors, AppSettings, ColorSchemePreset};
use better_terminal::numeral::palette_index_at;
use better_terminal::text::chars_of;

fn key_of(name: &str) -> Option<Key> {
    let chars = chars_of(name);
    key_at(&chars, 0, chars.len())
}

fn entry(line: &str) -> Option<(Key, String)> {
    let chars = chars_of(line);
    entry_at(&chars).map(|(key, from, to)| (key, chars[from..to].iter().collect()))
}

#[test]
fn empty_text_gives_the_defaults() {
    let settings = parse_app_settings("");
    assert!(settings.title_bar_visible);
    assert_eq!(settings.font_family, "Monospace");
    assert_eq!(settings.font_size.as_str(), "12");
    assert!(settings.colors.foreground.is_none());
    assert!(settings.colors.background.is_none());
    assert!(settings.colors.background_opacity.is_none());
    assert!(settings.colors.active_preset.is_none());
    assert_eq!(settings.colors.palette, vec![None; 16]);
    let defaults = AppSettings::default();
    assert_eq!(defaults.title_bar_visible, settings.title_bar_visible);
    assert_eq!(defaults.font_family, settings.font_family);
    assert_eq!(defaults.font_size.as_str(), settings.font_size.as_str());
}

#[test]
fn keys_are_recognized() {
    assert_eq!(key_of("titlebar"), Some(Key::TitleBar));
    assert_eq!(key_of("active_preset"), Some(Key::ActivePreset));
    assert_eq!(key_of("foreground"), Some(Key::Foreground));
    assert_eq!(key_of("background"), Some(Key::Background));
    assert_eq!(key_of("background_opacity"), Some(Key::BackgroundOpacity));
    assert_eq!(key_of("font_family"), Some(Key::FontFamily));
    assert_eq!(key_of("font_size"), Some(Key::FontSize));
    assert_eq!(key_of("color0"), Some(Key::Color(0)));
    assert_eq!(key_of("color9"), Some(Key::Color(9)));
    assert_eq!(key_of("color10"), Some(Key::Color(10)));
    assert_eq!(key_of("color15"), Some(Key::Color(15)));
    assert_eq!(key_of("color16"), None);
    assert_eq!(key_of("color"), None);
    assert_eq!(key_of("colorful"), None);
    assert_eq!(key_of("color-1"), None);
    assert_eq!(key_of("color1 "), None);
    assert_eq!(key_of("color 1"), None);
    assert_eq!(key_of("Color1"), None);
    assert_eq!(key_of("Titlebar"), None);
    assert_eq!(key_of("title"), None);
    assert_eq!(key_of("titlebars"), None);
    assert_eq!(key_of(""), None);
    assert_eq!(key_of("foo"), None);
}

#[test]
fn key_texts_name_their_keys() {
    let mut keys = vec![
        Key::TitleBar,
        Key::ActivePreset,
        Key::Foreground,
        Key::Background,
        Key::BackgroundOpacity,
        Key::FontFamily,
        Key::FontSize,
    ];
    for i in 0..16 {
        keys.push(Key::Color(i));
    }
    for key in keys {
        assert_eq!(key_of(&key.to_text()), Some(key));
    }
    assert_eq!(Key::Color(7).to_text(), "color7");
    assert_eq!(Key::Color(12).to_text(), "color12");
    assert_eq!(Key::BackgroundOpacity.to_text(), "background_opacity");
}

#[test]
fn palette_indices_are_read_as_unsigned_numbers() {
    let samples = vec![
        "0", "7", "15", "16", "007", "+5", "+15", "+16", "-1", "", "+", "1a", "a1", "1 ",
        "99999999999999999999999999", "0000000000000000000000000015", "١", "1.0", "++1",
    ];
    for s in samples {
        let chars = chars_of(s);
        let expected = s.parse::<usize>().ok().filter(|i| *i < 16);
        assert_eq!(palette_index_at(&chars, 0, chars.len()), expected, "{:?}", s);
    }
    let chars = chars_of("color12x");
    assert_eq!(palette_index_at(&chars, 5, 7), Some(12));
    assert_eq!(palette_index_at(&chars, 5, 8), None);
}

#[test]
fn a_line_is_split_at_its_first_equals_sign() {
    assert_eq!(entry("titlebar = true"), Some((Key::TitleBar, "true".to_string())));
    assert_eq!(entry("titlebar=true"), Some((Key::TitleBar, "true".to_string())));
    assert_eq!(entry("  titlebar\t=  true  "), Some((Key::TitleBar, "true".to_string())));
    assert_eq!(entry("font_family = a = b"), Some((Key::FontFamily, "a = b".to_string())));
    assert_eq!(entry("foreground ="), Some((Key::Foreground, String::new())));
    assert_eq!(entry("foreground"), None);
    assert_eq!(entry(""), None);
    assert_eq!(entry("   "), None);
    assert_eq!(entry("= true"), None);
    assert_eq!(entry("foo = bar"), None);
    assert_eq!(entry("color3 = #fff\r"), Some((Key::Color(3), "#fff".to_string())));
}

#[test]
fn title_bar_is_visible_only_for_true() {
    assert!(parse_app_settings("titlebar = true").title_bar_visible);
    assert!(!parse_app_settings("titlebar = false").title_bar_visible);
    assert!(!parse_app_settings("titlebar = True").title_bar_visible);
    assert!(!parse_app_settings("titlebar = yes").title_bar_visible);
    assert!(!parse_app_settings("titlebar =").title_bar_visible);
    assert!(parse_app_settings("titlebar").title_bar_visible);
    assert!(parse_title_bar_setting("foo = bar\ntitlebar = true\n"));
    assert!(!parse_title_bar_setting("titlebar = true\ntitlebar = false"));
    assert!(parse_title_bar_setting(""));
}

#[test]
fn the_last_of_duplicate_keys_wins() {
    let settings = parse_app_settings(
        "foreground = #111111\ntitlebar = false\nforeground = #222222\ntitlebar = true\n",
    );
    assert_eq!(settings.colors.foreground.as_deref(), Some("#222222"));
    assert!(settings.title_bar_visible);
}

#[test]
fn palette_index_bounds() {
    let settings = parse_app_settings("color16 = #ffffff\ncolor15 = #abcdef\n");
    assert_eq!(settings.colors.palette.len(), 16);
    assert_eq!(settings.colors.palette[15].as_deref(), Some("#abcdef"));
    for i in 0..15 {
        assert!(settings.colors.palette[i].is_none());
    }
    let settings = parse_app_settings("color0 = #000000\ncolor007 = #777777\ncolor+5 = #555555");
    assert_eq!(settings.colors.palette[0].as_deref(), Some("#000000"));
    assert_eq!(settings.colors.palette[7].as_deref(), Some("#777777"));
    assert_eq!(settings.colors.palette[5].as_deref(), Some("#555555"));
}

#[test]
fn a_known_preset_replaces_the_colors_read_before() {
    let colors = parse_color_settings(
        "foreground = #111111\ncolor3 = #333333\nbackground_opacity = 0.5\nactive_preset = Nord\n",
    );
    let nord = get_preset_colors(&ColorSchemePreset::Nord);
    assert_eq!(colors.active_preset.as_deref(), Some("Nord"));
    assert_eq!(colors.foreground, nord.foreground);
    assert_eq!(colors.background, nord.background);
    assert_eq!(colors.palette, nord.palette);
    assert!(colors.background_opacity.is_none());
}

#[test]
fn colors_after_a_known_preset_are_passed_over() {
    let colors = parse_color_settings(
        "active_preset = Monokai\nforeground = #111111\nbackground = #222222\n\
         background_opacity = 0.5\ncolor0 = #333333\n",
    );
    let monokai = get_preset_colors(&ColorSchemePreset::Monokai);
    assert_eq!(colors.active_preset.as_deref(), Some("Monokai"));
    assert_eq!(colors.foreground, monokai.foreground);
    assert_eq!(colors.background, monokai.background);
    assert_eq!(colors.palette, monokai.palette);
    assert!(colors.background_opacity.is_none());
}

#[test]
fn a_later_preset_line_still_counts() {
    let colors = parse_color_settings("active_preset = Nord\nactive_preset = GruvboxDark\n");
    let gruvbox = get_preset_colors(&ColorSchemePreset::GruvboxDark);
    assert_eq!(colors.active_preset.as_deref(), Some("GruvboxDark"));
    assert_eq!(colors.foreground, gruvbox.foreground);
    assert_eq!(colors.background_opacity.as_ref().map(|n| n.as_str()), Some("1"));
    let colors = parse_color_settings("active_preset = Nord\nactive_preset = Mine\ncolor1 = #1\n");
    let nord = get_preset_colors(&ColorSchemePreset::Nord);
    assert_eq!(colors.active_preset.as_deref(), Some("Mine"));
    assert_eq!(colors.foreground, nord.foreground);
    assert_eq!(colors.palette, nord.palette);
}

#[test]
fn an_unknown_preset_name_is_kept_and_colors_apply() {
    let colors = parse_color_settings(
        "foreground = #111111\nactive_preset = Mine\nbackground = #222222\ncolor2 = #333333\n",
    );
    assert_eq!(colors.active_preset.as_deref(), Some("Mine"));
    assert_eq!(colors.foreground.as_deref(), Some("#111111"));
    assert_eq!(colors.background.as_deref(), Some("#222222"));
    assert_eq!(colors.palette[2].as_deref(), Some("#333333"));
}

#[test]
fn the_custom_preset_is_a_known_preset() {
    let colors = parse_color_settings("foreground = #111111\nactive_preset = Custom\ncolor2 = #3\n");
    assert_eq!(colors.active_preset.as_deref(), Some("Custom"));
    assert!(colors.foreground.is_none());
    assert_eq!(colors.palette, vec![None; 16]);
}

#[test]
fn a_number_that_is_no_numeral_leaves_the_field_as_it_was() {
    let settings = parse_app_settings(
        "background_opacity = 0.85\nbackground_opacity = opaque\nfont_size = 14\nfont_size = big\n",
    );
    assert_eq!(settings.colors.background_opacity.as_ref().map(|n| n.as_str()), Some("0.85"));
    assert_eq!(settings.font_size.as_str(), "14");
    let settings = parse_app_settings("background_opacity = \nfont_size = 1 4\n");
    assert!(settings.colors.background_opacity.is_none());
    assert_eq!(settings.font_size.as_str(), "12");
}

#[test]
fn font_settings_apply_whatever_the_preset() {
    let settings = parse_app_settings(
        "active_preset = Nord\nfont_family = Fira Code\nfont_size = 10.5\n",
    );
    assert_eq!(settings.font_family, "Fira Code");
    assert_eq!(settings.font_size.as_str(), "10.5");
    assert_eq!(settings.colors.active_preset.as_deref(), Some("Nord"));
}

#[test]
fn other_lines_are_passed_over() {
    let settings = parse_app_settings(
        "# a comment\n\n   \nfoo = bar\nno equals sign\n= value\ncolorful = yes\ntitlebar = false\r\n",
    );
    assert!(!settings.title_bar_visible);
    assert!(settings.colors.foreground.is_none());
    assert_eq!(settings.colors.palette, vec![None; 16]);
    assert_eq!(settings.font_family, "Monospace");
}

#[test]
fn lines_are_read_like_the_text() {
    let lines = vec!["titlebar = false".to_string(), "color1 = red".to_string()];
    let settings = parse_settings_lines(&lines);
    assert!(!settings.title_bar_visible);
    assert_eq!(settings.colors.palette[1].as_deref(), Some("red"));
    let none: Vec<String> = Vec::new();
    assert!(parse_settings_lines(&none).title_bar_visible);
}

#[test]
fn every_short_text_is_a_palette_index_exactly_when_it_parses_below_sixteen() {
    let alphabet = ['0', '1', '5', '6', '9', '+', '-', ' ', 'a'];
    let mut last = vec![String::new()];
    for _ in 0..4 {
        let mut next = Vec::new();
        for word in &last {
            for c in alphabet {
                let mut longer = word.clone();
                longer.push(c);
                next.push(longer);
            }
        }
        for word in &next {
            let chars = chars_of(word);
            let expected = word.parse::<usize>().ok().filter(|i| *i < 16);
            assert_eq!(palette_index_at(&chars, 0, chars.len()), expected, "{:?}", word);
            let name = format!("color{}", word);
            assert_eq!(key_of(&name), expected.map(Key::Color), "{:?}", name);
        }
        last = next;
    }
}
