use agg::asciicast::Header;
use agg::{Config, Error, Renderer, Theme, ThemeValueParser};

#[test]
fn config_defaults() {
    let config = Config::default();
    assert_eq!(config.cols, None);
    assert!(config.font_dirs.is_empty());
    assert_eq!(config.font_family, agg::DEFAULT_FONT_FAMILY);
    assert_eq!(config.font_size, 14);
    assert_eq!(config.fps_cap, 30);
    assert_eq!(config.idle_time_limit, None);
    assert_eq!(config.last_frame_duration, 3_000_000);
    assert_eq!(config.line_height, 140);
    assert!(!config.no_loop);
    assert_eq!(config.renderer, Renderer::Resvg);
    assert_eq!(config.speed, 1_000_000);
    assert!(config.theme.is_none());
    assert!(config.show_progress_bar);
}

#[test]
fn builtin_theme_resolves() {
    let theme = Theme::Dracula.resolve().unwrap();
    assert_eq!(theme.background, agg::theme::Rgb { r: 0x28, g: 0x2a, b: 0x36 });
    assert_eq!(theme.foreground, agg::theme::Rgb { r: 0xf8, g: 0xf8, b: 0xf2 });
    assert_eq!(theme.palette.len(), 16);

    assert!(Theme::Asciinema.resolve().is_ok());
    assert!(Theme::Monokai.resolve().is_ok());
    assert!(Theme::Nord.resolve().is_ok());
    let kanagawa_light = Theme::KanagawaLight.resolve().unwrap();
    assert_eq!(kanagawa_light.palette[15], agg::theme::Rgb { r: 0x43, g: 0x43, b: 0x6c });
}

#[test]
fn custom_theme_resolves_through_parser() {
    let custom = Theme::Custom(
        "bbbbbb,ffffff,000000,111111,222222,333333,444444,555555,666666,777777".to_string(),
    );
    let theme = custom.resolve().unwrap();
    assert_eq!(theme.background, agg::theme::Rgb { r: 0xbb, g: 0xbb, b: 0xbb });

    let bad = Theme::Custom("zz".to_string());
    assert!(bad.resolve().is_err());
}

#[test]
fn embedded_theme_resolves_to_itself() {
    let inner = agg::theme::Theme::from_str(
        "bbbbbb,ffffff,000000,111111,222222,333333,444444,555555,666666,777777",
    )
    .unwrap();
    let resolved = Theme::Embedded(inner.clone()).resolve().unwrap();
    assert_eq!(resolved, inner);
}

#[test]
fn theme_names() {
    assert_eq!(Theme::GithubDark.name(), "githubdark");
    assert_eq!(Theme::Custom("a,b".to_string()).name(), "custom");
}

#[test]
fn theme_argument_parsing() {
    let parser = ThemeValueParser;
    assert!(matches!(parser.parse_value("dracula"), Some(Theme::Dracula)));
    assert!(matches!(parser.parse_value("github-dark"), Some(Theme::GithubDark)));
    assert!(matches!(parser.parse_value("solarized-light"), Some(Theme::SolarizedLight)));
    match parser.parse_value("101010,ffffff,000000") {
        Some(Theme::Custom(s)) => assert_eq!(s, "101010,ffffff,000000"),
        other => panic!("expected a custom theme, got {:?}", other),
    }
    assert!(parser.parse_value("no-such-theme").is_none());
}

#[test]
fn theme_possible_values() {
    let parser = ThemeValueParser;
    let values = parser.possible_values();
    assert_eq!(values.len(), 13);
    assert_eq!(values[0], "asciinema");
    assert_eq!(values[12], "custom");
    // Every listed name except "custom" parses back to a selection.
    for name in &values[..12] {
        assert!(parser.parse_value(name.as_str()).is_some());
    }
}

#[test]
fn terminal_size_rejects_zero() {
    let header = Header { term_cols: 0, term_rows: 24, term_theme: None, idle_time_limit: None };
    assert_eq!(agg::terminal_size(&header, None, None), Err(Error::InvalidTerminalSize));

    let header = Header { term_cols: 80, term_rows: 24, term_theme: None, idle_time_limit: None };
    assert_eq!(agg::terminal_size(&header, None, None), Ok((80, 24)));
    assert_eq!(agg::terminal_size(&header, Some(100), None), Ok((100, 24)));
    assert_eq!(agg::terminal_size(&header, None, Some(10)), Ok((80, 10)));
}

#[test]
fn idle_limit_priority() {
    assert_eq!(agg::effective_idle_limit(Some(1), Some(2)), 1);
    assert_eq!(agg::effective_idle_limit(None, Some(2)), 2);
    assert_eq!(agg::effective_idle_limit(None, None), 5_000_000);
}

#[test]
fn frame_times_pin_first_frame_to_zero() {
    assert_eq!(agg::frame_time(0, 7_000_000, 3_000_000), 3_000_000);
    assert_eq!(agg::frame_time(1, 7_000_000, 3_000_000), 10_000_000);
    assert_eq!(agg::frame_time(2, u64::MAX, 1), u64::MAX);
}

#[test]
fn error_messages() {
    assert_eq!(Error::UnsupportedFormat.message(), "not a v1, v2, v3 asciicast file");
    assert_eq!(Error::InvalidTerminalSize.message(), "the recording has invalid terminal size");
}

#[test]
fn header_default() {
    let header = Header::default();
    assert_eq!(header.term_cols, 80);
    assert_eq!(header.term_rows, 24);
    assert!(header.term_theme.is_none());
    assert!(header.idle_time_limit.is_none());
}
