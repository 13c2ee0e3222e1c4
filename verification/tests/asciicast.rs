use agg::asciicast::{open, parse_timestamp};
use agg::Error;

fn lines(parts: &[&str]) -> Vec<String> {
    parts.iter().map(|s| s.to_string()).collect()
}

#[test]
fn timestamp_parsing() {
    assert_eq!(parse_timestamp("0"), Some(0));
    assert_eq!(parse_timestamp("1.5"), Some(1_500_000));
    assert_eq!(parse_timestamp("0.033"), Some(33_000));
    assert_eq!(parse_timestamp("10"), Some(10_000_000));
    // Sub-microsecond digits are truncated.
    assert_eq!(parse_timestamp("0.0000019"), Some(1));
    // Exponent forms, as the shortest-representation float printers emit.
    assert_eq!(parse_timestamp("1e-6"), Some(1));
    assert_eq!(parse_timestamp("1.5e2"), Some(150_000_000));
    assert_eq!(parse_timestamp("1E3"), Some(1_000_000_000));
    assert_eq!(parse_timestamp("2e+1"), Some(20_000_000));
    assert_eq!(parse_timestamp("5e-7"), Some(0));
    assert_eq!(parse_timestamp("0e999999"), Some(0));
    // No sign on the mantissa, no empty parts, at most six exponent digits.
    assert_eq!(parse_timestamp("-1"), None);
    assert_eq!(parse_timestamp("1."), None);
    assert_eq!(parse_timestamp(".5"), None);
    assert_eq!(parse_timestamp("1e"), None);
    assert_eq!(parse_timestamp("1e+"), None);
    assert_eq!(parse_timestamp("1e9999999"), None);
    assert_eq!(parse_timestamp("20000000000000"), None);
    assert_eq!(parse_timestamp(""), None);
    assert_eq!(parse_timestamp("abc"), None);
}

#[test]
fn open_v2_with_exponent_time() {
    let input = lines(&[
        r#"{"version": 2, "width": 4, "height": 2}"#,
        r#"[1e-3, "o", "x"]"#,
    ]);

    let cast = open(&input).unwrap();

    assert_eq!(cast.events, vec![(1_000, "x".to_string())]);
}

#[test]
fn open_v2() {
    let input = lines(&[
        r#"{"version": 2, "width": 80, "height": 24}"#,
        r#"[1.0, "o", "hello"]"#,
        "",
        r#"[2.0, "i", "typed"]"#,
        r#"[2.5, "o", " world"]"#,
    ]);

    let cast = open(&input).unwrap();

    assert_eq!(cast.header.term_cols, 80);
    assert_eq!(cast.header.term_rows, 24);
    assert!(cast.header.term_theme.is_none());
    assert!(cast.header.idle_time_limit.is_none());
    assert_eq!(
        cast.events,
        vec![(1_000_000, "hello".to_string()), (2_500_000, " world".to_string())]
    );
}

#[test]
fn open_v2_with_theme_and_idle_limit() {
    let input = lines(&[
        r##"{"version": 2, "width": 10, "height": 5, "idle_time_limit": 1.5, "theme": {"fg": "#aabbcc", "bg": "#001122", "palette": "#000000:#111111:#222222:#333333:#444444:#555555:#666666:#777777"}}"##,
        r#"[0.5, "o", "x"]"#,
    ]);

    let cast = open(&input).unwrap();

    assert_eq!(cast.header.idle_time_limit, Some(1_500_000));
    let theme = cast.header.term_theme.unwrap();
    assert_eq!(theme.foreground, agg::theme::Rgb { r: 0xaa, g: 0xbb, b: 0xcc });
    assert_eq!(theme.background, agg::theme::Rgb { r: 0x00, g: 0x11, b: 0x22 });
    assert_eq!(theme.palette.len(), 16);
    // The 8-entry palette is repeated to fill 16 slots.
    assert_eq!(theme.palette[0], theme.palette[8]);
    assert_eq!(theme.palette[7], theme.palette[15]);
}

#[test]
fn open_v3_accumulates_intervals() {
    let input = lines(&[
        r#"{"version": 3, "term": {"cols": 100, "rows": 50}}"#,
        "# a comment line",
        r#"[0.5, "o", "a"]"#,
        r#"[0.25, "x", ""]"#,
        r#"[0.25, "o", "b"]"#,
    ]);

    let cast = open(&input).unwrap();

    assert_eq!(cast.header.term_cols, 100);
    assert_eq!(cast.header.term_rows, 50);
    // Intervals of non-output events still advance the clock.
    assert_eq!(
        cast.events,
        vec![(500_000, "a".to_string()), (1_000_000, "b".to_string())]
    );
}

#[test]
fn open_v1_accumulates_intervals() {
    let input = lines(&[
        r#"{"version": 1, "width": 80, "height": 24, "stdout": [[1.0, "x"], [0.5, "y"]]}"#,
    ]);

    let cast = open(&input).unwrap();

    assert_eq!(cast.header.term_cols, 80);
    assert_eq!(
        cast.events,
        vec![(1_000_000, "x".to_string()), (1_500_000, "y".to_string())]
    );
}

#[test]
fn open_v1_split_over_lines() {
    let input = lines(&[
        r#"{"version": 1, "width": 4, "height": 2,"#,
        r#" "stdout": [[0.1, "hi"]]}"#,
    ]);

    let cast = open(&input).unwrap();

    assert_eq!(cast.events, vec![(100_000, "hi".to_string())]);
}

#[test]
fn open_rejects_unknown_format() {
    assert_eq!(open(&lines(&["not json at all"])).unwrap_err(), Error::UnsupportedFormat);
    assert_eq!(
        open(&lines(&[r#"{"version": 9, "width": 1, "height": 1}"#])).unwrap_err(),
        Error::UnsupportedFormat
    );
    assert_eq!(open(&Vec::new()).unwrap_err(), Error::UnsupportedFormat);
}

#[test]
fn open_aborts_on_malformed_event() {
    let input = lines(&[
        r#"{"version": 2, "width": 80, "height": 24}"#,
        r#"[1.0, "o", "fine"]"#,
        "this is not an event",
    ]);

    assert_eq!(open(&input).unwrap_err(), Error::InvalidEvent);
}

#[test]
fn open_rejects_backwards_time_in_v2() {
    let input = lines(&[
        r#"{"version": 2, "width": 80, "height": 24}"#,
        r#"[2.0, "o", "a"]"#,
        r#"[1.0, "o", "b"]"#,
    ]);

    assert_eq!(open(&input).unwrap_err(), Error::InvalidEvent);
}

#[test]
fn open_v2_rejects_malformed_theme() {
    let input = lines(&[
        r##"{"version": 2, "width": 10, "height": 5, "theme": {"fg": "#aabbcc", "bg": "#001122", "palette": "#000000:#111111"}}"##,
    ]);

    // The header is not a valid v2 header, and the single line is no v1
    // recording either.
    assert_eq!(open(&input).unwrap_err(), Error::UnsupportedFormat);
}
