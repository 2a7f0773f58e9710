use herdr_profiles::theme::{
    apply, builtin, canonical_name, parse_override, Appearance, ColorOverride, CustomColors,
    ModeColors, PopupColors, Rgb, ThemeConfig,
};

fn theme(name: Option<&str>) -> ThemeConfig {
    ThemeConfig { name: name.map(str::to_owned), ..ThemeConfig::default() }
}

fn mode(panel_bg: Option<&str>, text: Option<&str>, active_row_bg: Option<&str>) -> ModeColors {
    ModeColors {
        panel_bg: panel_bg.map(str::to_owned),
        text: text.map(str::to_owned),
        active_row_bg: active_row_bg.map(str::to_owned),
    }
}

#[test]
fn builtin_names_and_aliases() {
    let gruvbox = builtin("gruvbox").unwrap();
    assert_eq!(gruvbox.background, Some(Rgb::new(40, 40, 40)));
    assert_eq!(gruvbox.active_row, Some(Rgb::new(50, 49, 48)));
    assert_eq!(builtin("Gruvbox Dark"), builtin("gruvbox"));
    assert_eq!(builtin("TokyoNight"), builtin("tokyo-night"));
    assert_eq!(builtin("terminal"), Some(PopupColors::default()));
    assert!(builtin("nope").is_none());
}

#[test]
fn parses_override_colors() {
    assert_eq!(parse_override("#282828"), Some(ColorOverride::Rgb(Rgb::new(40, 40, 40))));
    assert_eq!(parse_override("#fff"), Some(ColorOverride::Rgb(Rgb::new(255, 255, 255))));
    assert_eq!(parse_override("rgb(1, 2, 3)"), Some(ColorOverride::Rgb(Rgb::new(1, 2, 3))));
    assert_eq!(parse_override("reset"), Some(ColorOverride::Terminal));
    assert_eq!(parse_override("red"), None);
    assert_eq!(parse_override("#12345"), None);
}

#[test]
fn resolves_manual_theme_with_overrides() {
    let config = ThemeConfig {
        name: Some("gruvbox".to_owned()),
        custom: Some(CustomColors {
            base: mode(Some("#101010"), Some("red"), Some("reset")),
            dark: None,
            light: None,
        }),
        ..ThemeConfig::default()
    };
    let colors = config.resolve(None);
    assert_eq!(colors.background, Some(Rgb::new(16, 16, 16)));
    assert_eq!(colors.text, Some(Rgb::new(235, 219, 178)));
    assert_eq!(colors.active_row, None);
    assert_eq!(ThemeConfig::default().resolve(None), builtin("catppuccin").unwrap());
    assert_eq!(theme(Some("unknown")).resolve(None), builtin("catppuccin").unwrap());
}

#[test]
fn resolves_auto_switch_by_appearance() {
    let config = ThemeConfig {
        auto_switch: true,
        dark_name: Some("nord".to_owned()),
        light_name: Some("one-light".to_owned()),
        custom: Some(CustomColors {
            base: mode(None, None, None),
            dark: None,
            light: Some(mode(Some("#eeeeee"), None, None)),
        }),
        ..ThemeConfig::default()
    };
    assert!(config.follows_host_appearance());
    assert_eq!(config.resolve(Some(Appearance::Dark)), builtin("nord").unwrap());
    assert_eq!(config.resolve(None), builtin("nord").unwrap());
    let light = config.resolve(Some(Appearance::Light));
    assert_eq!(light.background, Some(Rgb::new(238, 238, 238)));
    assert_eq!(light.text, builtin("one-light").unwrap().text);
    let auto = ThemeConfig { auto_switch: true, ..ThemeConfig::default() };
    assert_eq!(auto.resolve(Some(Appearance::Light)), builtin("catppuccin-latte").unwrap());
}

#[test]
fn appearance_from_background_luminance() {
    assert_eq!(Rgb::new(40, 40, 40).appearance(), Appearance::Dark);
    assert_eq!(Rgb::new(250, 250, 250).appearance(), Appearance::Light);
}

#[test]
fn luminance_threshold_is_inclusive() {
    // 128 * (299 + 587 + 114) = 128000 exactly.
    assert_eq!(Rgb::new(128, 128, 128).appearance(), Appearance::Light);
    assert_eq!(Rgb::new(127, 128, 128).appearance(), Appearance::Dark);
}

#[test]
fn names_are_matched_loosely() {
    assert_eq!(canonical_name("Catppuccin_Mocha"), Some("catppuccin"));
    assert_eq!(canonical_name("ROSE PINE DAWN"), Some("rose-pine-dawn"));
    assert_eq!(canonical_name("latte"), Some("catppuccin-latte"));
    assert_eq!(canonical_name("Ünknown"), None);
    assert_eq!(builtin("light"), builtin("catppuccin-latte"));
    assert_eq!(builtin("vesper").unwrap().text, Some(Rgb::new(255, 255, 255)));
}

#[test]
fn overrides_are_trimmed_and_case_blind() {
    assert_eq!(parse_override("  #ABCDEF "), Some(ColorOverride::Rgb(Rgb::new(171, 205, 239))));
    assert_eq!(parse_override("RGB(+1,2, 3)"), Some(ColorOverride::Rgb(Rgb::new(1, 2, 3))));
    assert_eq!(parse_override("rgb(1, 2)"), None);
    assert_eq!(parse_override("rgb(256, 2, 3)"), None);
    assert_eq!(parse_override("Default"), Some(ColorOverride::Terminal));
    assert_eq!(parse_override("#ggg"), None);
}

#[test]
fn unparsable_overrides_keep_the_color() {
    let mut slot = Some(Rgb::new(1, 2, 3));
    apply(&mut slot, Some("red"));
    assert_eq!(slot, Some(Rgb::new(1, 2, 3)));
    apply(&mut slot, None);
    assert_eq!(slot, Some(Rgb::new(1, 2, 3)));
    apply(&mut slot, Some("terminal"));
    assert_eq!(slot, Some(Rgb::new(1, 2, 3)));
    apply(&mut slot, Some("None"));
    assert_eq!(slot, None);
    apply(&mut slot, Some("#000"));
    assert_eq!(slot, Some(Rgb::new(0, 0, 0)));
}

#[test]
fn mode_overrides_apply_after_the_base() {
    let config = ThemeConfig {
        auto_switch: true,
        custom: Some(CustomColors {
            base: mode(Some("#111111"), Some("#222222"), None),
            dark: Some(mode(Some("#333333"), None, None)),
            light: None,
        }),
        ..ThemeConfig::default()
    };
    let dark = config.resolve(Some(Appearance::Dark));
    assert_eq!(dark.background, Some(Rgb::new(51, 51, 51)));
    assert_eq!(dark.text, Some(Rgb::new(34, 34, 34)));
    assert_eq!(dark.active_row, builtin("catppuccin").unwrap().active_row);
    let manual = ThemeConfig { auto_switch: false, name: Some("nord".to_owned()), ..config };
    assert_eq!(manual.resolve(Some(Appearance::Dark)).background, Some(Rgb::new(17, 17, 17)));
}
