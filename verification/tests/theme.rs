use agg::theme::{Rgb, Theme};
use agg::Error;

fn gray(v: u8) -> Rgb {
    Rgb { r: v, g: v, b: v }
}

#[test]
fn parse_invalid() {
    assert!(Theme::from_str("").is_err());

    assert!(Theme::from_str("foo").is_err());

    assert!(Theme::from_str("000000,111111,222222,333333,444444").is_err());

    assert!(
        Theme::from_str("xxxxxx,111111,222222,333333,444444,555555,666666,777777,888888,999999")
            .is_err()
    );
}

#[test]
fn parse_8_color_palette() {
    let result = Theme::from_str("bbbbbb,ffffff,000000,111111,222222,333333,444444,555555,666666,777777");

    assert!(result.is_ok());

    let theme = result.unwrap();

    assert_eq!(theme.background, gray(0xbb));

    assert_eq!(theme.foreground, gray(0xff));

    assert_eq!(
        theme.palette,
        vec![
            gray(0x00),
            gray(0x11),
            gray(0x22),
            gray(0x33),
            gray(0x44),
            gray(0x55),
            gray(0x66),
            gray(0x77),
            gray(0x00),
            gray(0x11),
            gray(0x22),
            gray(0x33),
            gray(0x44),
            gray(0x55),
            gray(0x66),
            gray(0x77),
        ]
    );
}

#[test]
fn parse_16_color_palette() {
    let result = Theme::from_str("bbbbbb,ffffff,000000,111111,222222,333333,444444,555555,666666,777777,888888,999999,aaaaaa,bbbbbb,cccccc,dddddd,eeeeee,ffffff");

    assert!(result.is_ok());

    let theme = result.unwrap();

    assert_eq!(theme.background, gray(0xbb));

    assert_eq!(theme.foreground, gray(0xff));

    assert_eq!(
        theme.palette,
        vec![
            gray(0x00),
            gray(0x11),
            gray(0x22),
            gray(0x33),
            gray(0x44),
            gray(0x55),
            gray(0x66),
            gray(0x77),
            gray(0x88),
            gray(0x99),
            gray(0xaa),
            gray(0xbb),
            gray(0xcc),
            gray(0xdd),
            gray(0xee),
            gray(0xff),
        ]
    );
}

#[test]
fn parse_mixed_colors() {
    let theme = Theme::from_str("102030,a0b0c0,000000,111111,222222,333333,444444,555555,666666,777777").unwrap();
    assert_eq!(theme.background, Rgb { r: 0x10, g: 0x20, b: 0x30 });
    assert_eq!(theme.foreground, Rgb { r: 0xa0, g: 0xb0, b: 0xc0 });
}

#[test]
fn parse_error_kinds() {
    // A malformed triplet is a color-format error even when the count is
    // right; a wrong count of valid triplets is a theme error.
    assert_eq!(
        Theme::from_str("xxxxxx,111111,222222,333333,444444,555555,666666,777777,888888,999999"),
        Err(Error::InvalidColorFormat)
    );
    assert_eq!(Theme::from_str("000000,111111"), Err(Error::InvalidTheme));
    assert_eq!(
        Theme::from_str("000000,111111,222222,333333,444444,555555,666666"),
        Err(Error::InvalidTheme)
    );
}

#[test]
fn parse_skips_empty_segments() {
    let a = Theme::from_str("bbbbbb,,ffffff,000000,111111,222222,333333,444444,555555,666666,777777,").unwrap();
    let b = Theme::from_str("bbbbbb,ffffff,000000,111111,222222,333333,444444,555555,666666,777777").unwrap();
    assert_eq!(a, b);
}

#[test]
fn color_reads_explicit_palette() {
    let theme = Theme::from_str("bbbbbb,ffffff,000000,111111,222222,333333,444444,555555,666666,777777").unwrap();
    assert_eq!(theme.color(0), gray(0x00));
    assert_eq!(theme.color(7), gray(0x77));
    assert_eq!(theme.color(8), gray(0x00));
    assert_eq!(theme.color(15), gray(0x77));
}

#[test]
fn color_cube_formula() {
    let theme = Theme::from_str("bbbbbb,ffffff,000000,111111,222222,333333,444444,555555,666666,777777").unwrap();
    // 16 is black, 196 is pure red, 21 is pure blue, 231 is white.
    assert_eq!(theme.color(16), Rgb { r: 0, g: 0, b: 0 });
    assert_eq!(theme.color(196), Rgb { r: 255, g: 0, b: 0 });
    assert_eq!(theme.color(21), Rgb { r: 0, g: 0, b: 255 });
    assert_eq!(theme.color(231), Rgb { r: 255, g: 255, b: 255 });
    // One mid-cube value: 110 - 16 = 94 = 2*36 + 3*6 + 4.
    assert_eq!(theme.color(110), Rgb { r: 135, g: 175, b: 215 });
}

#[test]
fn color_grayscale_ramp() {
    let theme = Theme::from_str("bbbbbb,ffffff,000000,111111,222222,333333,444444,555555,666666,777777").unwrap();
    assert_eq!(theme.color(232), gray(8));
    assert_eq!(theme.color(243), gray(118));
    assert_eq!(theme.color(255), gray(238));
}
