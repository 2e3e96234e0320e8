use better_terminal::color_schemes::{catppuccin_mocha, gruvbox_dark, monokai, nord, tokyo_night};
use better_terminal::config::{get_preset_colors, ColorSchemePreset, ColorSettings};

fn texts(settings: &ColorSettings) -> Vec<Option<String>> {
    let mut all = vec![settings.foreground.clone(), settings.background.clone()];
    all.push(settings.background_opacity.as_ref().map(|n| n.as_str().to_string()));
    all.extend(settings.palette.iter().cloned());
    all
}

#[test]
fn names_of_presets_round_trip() {
    for preset in ColorSchemePreset::all_presets() {
        let found = ColorSchemePreset::from_name(preset.name());
        assert_eq!(found, Some(preset));
        let colors = get_preset_colors(&found.unwrap());
        assert_eq!(texts(&colors), texts(&get_preset_colors(&preset)));
        assert_eq!(colors.active_preset.as_deref(), Some(preset.name()));
    }
}

#[test]
fn presets_are_listed_in_their_order() {
    let names: Vec<&str> = ColorSchemePreset::all_presets().iter().map(|p| p.name()).collect();
    assert_eq!(
        names,
        vec!["GruvboxDark", "CatppuccinMocha", "Monokai", "Nord", "TokyoNight", "Custom"]
    );
}

#[test]
fn lookup_by_name_is_exact() {
    assert_eq!(ColorSchemePreset::from_name("Nord"), Some(ColorSchemePreset::Nord));
    assert_eq!(ColorSchemePreset::from_name("nord"), None);
    assert_eq!(ColorSchemePreset::from_name("NORD"), None);
    assert_eq!(ColorSchemePreset::from_name(" Nord"), None);
    assert_eq!(ColorSchemePreset::from_name("Nord "), None);
    assert_eq!(ColorSchemePreset::from_name(""), None);
    assert_eq!(ColorSchemePreset::from_name("Solarized"), None);
    assert_eq!(ColorSchemePreset::from_name("Custom"), Some(ColorSchemePreset::Custom));
}

#[test]
fn nord_preset_has_its_colors() {
    let colors = get_preset_colors(&ColorSchemePreset::Nord);
    assert_eq!(colors.active_preset.as_deref(), Some("Nord"));
    assert_eq!(colors.foreground.as_deref(), Some("rgba(216, 222, 233, 1.0)"));
    assert_eq!(colors.background.as_deref(), Some("rgba(46, 52, 64, 1.0)"));
    assert!(colors.background_opacity.is_none());
    assert_eq!(colors.palette.len(), 16);
    assert_eq!(colors.palette[0].as_deref(), Some("rgba(59, 66, 82, 1.0)"));
    assert_eq!(colors.palette[15].as_deref(), Some("rgba(236, 239, 244, 1.0)"));
}

#[test]
fn gruvbox_preset_has_its_colors() {
    let colors = get_preset_colors(&ColorSchemePreset::GruvboxDark);
    assert_eq!(colors.active_preset.as_deref(), Some("GruvboxDark"));
    assert_eq!(colors.foreground.as_deref(), Some("#ebdbb2"));
    assert_eq!(colors.background.as_deref(), Some("#282828"));
    assert_eq!(colors.background_opacity.as_ref().map(|n| n.as_str()), Some("1"));
    assert_eq!(colors.palette[1].as_deref(), Some("#cc241d"));
    assert_eq!(colors.palette[14].as_deref(), Some("#8ec07c"));
}

#[test]
fn scheme_modules_give_full_palettes() {
    let schemes = vec![
        (gruvbox_dark::get_colors(), "#ebdbb2", "#282828"),
        (catppuccin_mocha::get_colors(), "rgba(205, 214, 244, 1.0)", "rgba(30, 30, 46, 1.0)"),
        (monokai::get_colors(), "rgba(248, 248, 242, 1.0)", "rgba(39, 40, 34, 1.0)"),
        (nord::get_colors(), "rgba(216, 222, 233, 1.0)", "rgba(46, 52, 64, 1.0)"),
        (tokyo_night::get_colors(), "rgba(169, 177, 214, 1.0)", "rgba(26, 27, 38, 1.0)"),
    ];
    for (colors, foreground, background) in schemes {
        assert_eq!(colors.foreground.as_deref(), Some(foreground));
        assert_eq!(colors.background.as_deref(), Some(background));
        assert_eq!(colors.palette.len(), 16);
        assert!(colors.palette.iter().all(|c| c.is_some()));
    }
    assert_eq!(monokai::get_colors().palette[15].as_deref(), Some("rgba(249, 248, 245, 1.0)"));
    assert_eq!(tokyo_night::get_colors().palette[6].as_deref(), Some("rgba(130, 204, 227, 1.0)"));
    assert_eq!(
        catppuccin_mocha::get_colors().palette[8].as_deref(),
        Some("rgba(88, 91, 112, 1.0)")
    );
    assert!(nord::get_colors().active_preset.is_none());
    assert_eq!(gruvbox_dark::get_colors().active_preset.as_deref(), Some("GruvboxDark"));
}

#[test]
fn custom_preset_sets_no_color() {
    let colors = get_preset_colors(&ColorSchemePreset::Custom);
    assert_eq!(colors.active_preset.as_deref(), Some("Custom"));
    assert!(colors.foreground.is_none());
    assert!(colors.background.is_none());
    assert!(colors.background_opacity.is_none());
    assert_eq!(colors.palette, vec![None; 16]);
}

#[test]
fn default_colors_are_unset() {
    let colors = ColorSettings::default();
    assert!(colors.foreground.is_none());
    assert!(colors.background.is_none());
    assert!(colors.background_opacity.is_none());
    assert!(colors.active_preset.is_none());
    assert_eq!(colors.palette, vec![None; 16]);
}
