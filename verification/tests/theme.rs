use powerline_claude::theme::{Family, RawFamily, RawTheme, Rgb, SegmentColors, SegmentKind, Theme};

fn family(fg: &str, bg: &str) -> Option<RawFamily> {
    Some(RawFamily {
        fg: Some(fg.to_string()),
        bg: Some(bg.to_string()),
    })
}

#[test]
fn default_theme_is_catppuccin_mocha() {
    let theme = Theme::default();
    assert_eq!(theme.name(), "catppuccin-mocha");
}

#[test]
fn resolves_all_six_palettes_by_name() {
    for name in [
        "catppuccin-mocha",
        "catppuccin-frappe",
        "dracula",
        "gruvbox-dark",
        "nord",
        "tokyonight",
    ] {
        let theme = Theme::by_name(name).unwrap_or_else(|e| panic!("{name}: {e}"));
        assert_eq!(theme.name(), name);
    }
}

#[test]
fn unknown_theme_error_lists_available_names() {
    let err = Theme::by_name("solarized").unwrap_err();
    assert!(err.contains("solarized"), "names the bad input: {err}");
    assert!(
        err.contains("catppuccin-mocha"),
        "lists valid themes: {err}"
    );
}

#[test]
fn unknown_theme_error_is_exact() {
    let err = Theme::by_name("nope").unwrap_err();
    assert_eq!(
        err,
        "unknown theme 'nope', available: catppuccin-mocha, catppuccin-frappe, dracula, gruvbox-dark, nord, tokyonight"
    );
}

#[test]
fn mocha_cost_colors_match_vendored_palette() {
    let colors = Theme::default().family(Family::Cost);
    assert_eq!(colors.fg, Rgb::hex(0xa6e3a1));
    assert_eq!(colors.bg, Rgb::hex(0x45475a));
}

#[test]
fn mocha_git_uses_branch_fg_on_git_bg() {
    let colors = Theme::default().family(Family::Git);
    assert_eq!(colors.fg, Rgb::hex(0xeba0ac));
    assert_eq!(colors.bg, Rgb::hex(0x313244));
}

#[test]
fn every_family_resolves_in_every_builtin() {
    for name in Theme::builtin_names() {
        let theme = Theme::by_name(name).unwrap();
        for family in Family::ALL {
            let _ = theme.family(family); // no panic on any slot
        }
    }
}

#[test]
fn builtin_names_are_listed_in_order() {
    assert_eq!(
        Theme::builtin_names(),
        vec![
            "catppuccin-mocha",
            "catppuccin-frappe",
            "dracula",
            "gruvbox-dark",
            "nord",
            "tokyonight"
        ]
    );
}

#[test]
fn rgb_decomposes_into_channels() {
    let rgb = Rgb::hex(0xd97757);
    assert_eq!((rgb.r, rgb.g, rgb.b), (0xd9, 0x77, 0x57));
}

#[test]
fn rgb_ignores_bits_above_the_color() {
    assert_eq!(Rgb::hex(0xff123456), Rgb::hex(0x123456));
}

#[test]
fn parse_hex_accepts_leading_hash() {
    let rgb = Rgb::parse_hex("#d97757").unwrap();
    assert_eq!(rgb, Rgb::hex(0xd97757));
}

#[test]
fn parse_hex_accepts_no_leading_hash() {
    let rgb = Rgb::parse_hex("d97757").unwrap();
    assert_eq!(rgb, Rgb::hex(0xd97757));
}

#[test]
fn parse_hex_accepts_upper_case_digits() {
    assert_eq!(Rgb::parse_hex("#D97757").unwrap(), Rgb::hex(0xd97757));
}

#[test]
fn parse_hex_rejects_wrong_length() {
    let err = Rgb::parse_hex("#d977").unwrap_err();
    assert!(err.contains("d977"), "names the bad input: {err}");
}

#[test]
fn parse_hex_wrong_length_error_is_exact() {
    assert_eq!(
        Rgb::parse_hex("#d977").unwrap_err(),
        "invalid color '#d977': expected 6 hex digits (e.g. '#d97757')"
    );
}

#[test]
fn parse_hex_rejects_non_hex_chars() {
    let err = Rgb::parse_hex("#gggggg").unwrap_err();
    assert!(err.contains("gggggg"), "names the bad input: {err}");
}

#[test]
fn parse_hex_non_hex_error_is_exact() {
    assert_eq!(
        Rgb::parse_hex("#gggggg").unwrap_err(),
        "invalid color '#gggggg': not a valid hex value"
    );
}

#[test]
fn parse_hex_counts_bytes_not_characters() {
    // "é" takes two bytes, so five characters can make six bytes
    assert_eq!(
        Rgb::parse_hex("é1234").unwrap_err(),
        "invalid color 'é1234': not a valid hex value"
    );
}

#[test]
fn custom_theme_dir_with_full_override_returns_exact_colors() {
    let raw = RawTheme {
        name: Some("my-custom".to_string()),
        claude: family("#111111", "#222222"),
        directory: family("#333333", "#444444"),
        git: family("#555555", "#666666"),
        model: family("#777777", "#888888"),
        context: family("#999999", "#aaaaaa"),
        cost: family("#bbbbbb", "#cccccc"),
    };

    let theme = Theme::from_raw(raw, Some("dir".to_string())).unwrap();

    assert_eq!(
        theme.family(Family::Claude),
        SegmentColors {
            fg: Rgb::hex(0x111111),
            bg: Rgb::hex(0x222222)
        }
    );
    assert_eq!(
        theme.family(Family::Cost),
        SegmentColors {
            fg: Rgb::hex(0xbbbbbb),
            bg: Rgb::hex(0xcccccc)
        }
    );
}

#[test]
fn custom_theme_dir_partial_family_falls_back_to_mocha() {
    // Only the logo family's fg is overridden; everything else falls back to
    // catppuccin-mocha, including that family's bg.
    let raw = RawTheme {
        claude: Some(RawFamily {
            fg: Some("#123456".to_string()),
            bg: None,
        }),
        ..RawTheme::default()
    };

    let theme = Theme::from_raw(raw, None).unwrap();
    let mocha = Theme::default();

    assert_eq!(
        theme.family(Family::Claude),
        SegmentColors {
            fg: Rgb::hex(0x123456),
            bg: mocha.family(Family::Claude).bg,
        }
    );
    assert_eq!(theme.family(Family::Git), mocha.family(Family::Git));
    assert_eq!(theme.family(Family::Cost), mocha.family(Family::Cost));
}

#[test]
fn custom_theme_dir_invalid_hex_color_errors() {
    let raw = RawTheme {
        claude: Some(RawFamily {
            fg: Some("not-a-color".to_string()),
            bg: None,
        }),
        ..RawTheme::default()
    };

    let err = Theme::from_raw(raw, None).unwrap_err();

    assert!(err.contains("not-a-color"), "names the bad value: {err}");
}

#[test]
fn custom_theme_first_bad_override_is_the_error() {
    let raw = RawTheme {
        git: Some(RawFamily {
            fg: Some("#12".to_string()),
            bg: Some("zzzzzz".to_string()),
        }),
        cost: Some(RawFamily {
            fg: Some("#bad".to_string()),
            bg: None,
        }),
        ..RawTheme::default()
    };
    let err = Theme::from_raw(raw, None).unwrap_err();
    assert!(err.contains("'#12'"), "{err}");
}

#[test]
fn custom_theme_name_uses_explicit_name_field() {
    let raw = RawTheme {
        name: Some("my-explicit-name".to_string()),
        ..RawTheme::default()
    };

    let theme = Theme::from_raw(raw, Some("elsewhere".to_string())).unwrap();

    assert_eq!(theme.name(), "my-explicit-name");
}

#[test]
fn custom_theme_name_falls_back_to_directory_basename() {
    let raw = RawTheme {
        claude: family("#111111", "#111111"),
        ..RawTheme::default()
    };

    let theme = Theme::from_raw(raw, Some("my-dir-name".to_string())).unwrap();

    assert_eq!(theme.name(), "my-dir-name");
}

#[test]
fn custom_theme_without_any_name_is_custom() {
    let theme = Theme::from_raw(RawTheme::default(), None).unwrap();
    assert_eq!(theme.name(), "custom");
}

#[test]
fn empty_theme_file_gives_mocha_colors() {
    let theme = Theme::from_raw(RawTheme::default(), None).unwrap();
    let mocha = Theme::default();
    for family in Family::ALL {
        assert_eq!(theme.family(family), mocha.family(family));
    }
}

#[test]
fn segment_kinds_borrow_families() {
    let theme = Theme::default();
    let stats = theme.colors(SegmentKind::Stats);
    assert_eq!(stats.fg, theme.family(Family::Cost).fg);
    assert_eq!(stats.bg, theme.family(Family::Context).bg);
    assert_eq!(theme.colors(SegmentKind::Effort), theme.family(Family::Model));
    assert_eq!(theme.colors(SegmentKind::Logo), theme.family(Family::Claude));
}

#[test]
fn mocha_context_states_are_peach_then_red() {
    let theme = Theme::default();
    assert_eq!(theme.family(Family::ContextWarn).bg, Rgb::hex(0xfab387));
    assert_eq!(theme.family(Family::ContextAlert).bg, Rgb::hex(0xf38ba8));
}

#[test]
fn take_family_empties_only_that_family() {
    let mut raw = RawTheme {
        claude: family("#111111", "#222222"),
        git: family("#333333", "#444444"),
        ..RawTheme::default()
    };
    let taken = raw.take_family(Family::Claude).unwrap();
    assert_eq!(taken.fg.as_deref(), Some("#111111"));
    assert!(raw.claude.is_none());
    assert!(raw.git.is_some());
    assert!(raw.take_family(Family::ContextWarn).is_none());
}

#[test]
fn parse_hex_rejects_a_sign_before_the_digits() {
    assert_eq!(
        Rgb::parse_hex("+12345").unwrap_err(),
        "invalid color '+12345': not a valid hex value"
    );
    assert!(Rgb::parse_hex("#+12345").is_err());
}

#[test]
fn parse_hex_round_trips_every_channel_spelling() {
    for (r, g, b) in [(0u8, 0u8, 0u8), (255, 255, 255), (0x12, 0xab, 0xEF), (1, 2, 3)] {
        let want = Rgb { r, g, b };
        assert_eq!(Rgb::parse_hex(&format!("#{r:02x}{g:02x}{b:02x}")), Ok(want));
        assert_eq!(Rgb::parse_hex(&format!("{r:02X}{g:02X}{b:02X}")), Ok(want));
    }
}
