use agg::renderer::fontdue::{FontdueRenderer, Glyph, Rgba, mix_colors};
use agg::renderer::{Settings, text_attrs};
use agg::theme::{Rgb, Theme};
use agg::vt::{Pen, PenColor, TermCell, TermLine};

fn plain_pen() -> Pen {
    Pen {
        foreground: None,
        background: None,
        bold: false,
        faint: false,
        italic: false,
        underline: false,
        blink: false,
        inverse: false,
    }
}

fn test_theme() -> Theme {
    Theme::from_str("bbbbbb,ffffff,000000,111111,222222,333333,444444,555555,666666,777777")
        .unwrap()
}

#[test]
fn bold_brightens_indexed_foreground() {
    let theme = test_theme();
    let mut pen = plain_pen();
    pen.foreground = Some(PenColor::Indexed(3));
    pen.bold = true;

    let attrs = text_attrs(&pen, &None, 0, 0, &theme);
    assert_eq!(attrs.foreground, Some(PenColor::Indexed(11)));

    // High-intensity indices are left alone.
    pen.foreground = Some(PenColor::Indexed(11));
    let attrs = text_attrs(&pen, &None, 0, 0, &theme);
    assert_eq!(attrs.foreground, Some(PenColor::Indexed(11)));
}

#[test]
fn blink_brightens_indexed_background() {
    let theme = test_theme();
    let mut pen = plain_pen();
    pen.background = Some(PenColor::Indexed(2));
    pen.blink = true;

    let attrs = text_attrs(&pen, &None, 0, 0, &theme);
    assert_eq!(attrs.background, Some(PenColor::Indexed(10)));
}

#[test]
fn cursor_inverts_cell_as_xor() {
    let theme = test_theme();
    let pen = plain_pen();

    // Cursor on the cell: colors swap, missing sides come from the theme.
    let attrs = text_attrs(&pen, &Some((2, 1)), 2, 1, &theme);
    assert_eq!(attrs.foreground, Some(PenColor::Rgb(theme.background)));
    assert_eq!(attrs.background, Some(PenColor::Rgb(theme.foreground)));

    // Cursor on an inverse cell: the two inversions cancel.
    let mut inverse_pen = plain_pen();
    inverse_pen.inverse = true;
    let attrs = text_attrs(&inverse_pen, &Some((2, 1)), 2, 1, &theme);
    assert_eq!(attrs.foreground, None);
    assert_eq!(attrs.background, None);

    // Cursor elsewhere leaves the cell alone.
    let attrs = text_attrs(&pen, &Some((0, 0)), 2, 1, &theme);
    assert_eq!(attrs.foreground, None);
    assert_eq!(attrs.background, None);
}

#[test]
fn mix_colors_blends_channels() {
    let fg = Rgba { r: 200, g: 255, b: 0, a: 255 };
    let bg = Rgba { r: 100, g: 0, b: 60, a: 255 };

    // Zero coverage keeps the background, full coverage paints the
    // foreground.
    assert_eq!(mix_colors(fg, bg, 0), Rgba { r: 100, g: 0, b: 60, a: 255 });
    assert_eq!(mix_colors(fg, bg, 255), Rgba { r: 200, g: 255, b: 0, a: 255 });

    // 100*127/255 + 200*128/255 = 49 + 100; 255*128/255 = 128; 60*127/255 = 29.
    assert_eq!(mix_colors(fg, bg, 128), Rgba { r: 149, g: 128, b: 29, a: 255 });
}

fn tiny_renderer(theme: Theme) -> FontdueRenderer {
    let settings = Settings {
        terminal_size: (1, 1),
        font_families: vec!["anything".to_string()],
        font_size: 1,
        line_height: 100,
        theme,
    };
    // One column of 1.00 px: the frame is 3x2 pixels.
    FontdueRenderer::new(settings, 100).unwrap()
}

#[test]
fn renderer_pixel_size_formula() {
    let r = tiny_renderer(test_theme());
    assert_eq!(r.pixel_size(), (3, 2));

    let settings = Settings {
        terminal_size: (80, 24),
        font_families: vec![],
        font_size: 14,
        line_height: 140,
        theme: test_theme(),
    };
    // col width 8.40 px: width = round(82 * 8.40) = 689,
    // height = round(25 * 19.60) = 490.
    let r = FontdueRenderer::new(settings, 840).unwrap();
    assert_eq!(r.pixel_size(), (689, 490));
}

fn one_cell(ch: char, pen: Pen) -> Vec<TermLine> {
    vec![TermLine { cells: vec![TermCell { ch, width: 1, pen }] }]
}

#[test]
fn render_fills_background_rectangle() {
    let theme = test_theme();
    let renderer = tiny_renderer(theme.clone());
    let mut pen = plain_pen();
    pen.background = Some(PenColor::Indexed(1));

    let buf = renderer.render(&one_cell(' ', pen), None);

    assert_eq!(buf.len(), 6);
    let theme_bg = Rgba { r: 0xbb, g: 0xbb, b: 0xbb, a: 255 };
    let cell_bg = Rgba { r: 0x11, g: 0x11, b: 0x11, a: 255 };
    // The cell rectangle covers pixel (1,1); margins keep the theme
    // background.
    assert_eq!(buf[0], theme_bg);
    assert_eq!(buf[1], theme_bg);
    assert_eq!(buf[2], theme_bg);
    assert_eq!(buf[3], theme_bg);
    assert_eq!(buf[4], cell_bg);
    assert_eq!(buf[5], theme_bg);
}

#[test]
fn render_blends_cached_glyph() {
    let theme = test_theme();
    let mut renderer = tiny_renderer(theme.clone());

    // A one-pixel glyph with full coverage, placed at the pen position.
    let glyph = Glyph::new(1, 1, 0, 0, vec![255]).unwrap();
    assert!(!renderer.has_glyph('X', false, false));
    renderer.store_glyph('X', false, false, Some(glyph), None);
    assert!(renderer.has_glyph('X', false, false));

    let buf = renderer.render(&one_cell('X', plain_pen()), None);

    // Full coverage paints the foreground over the pixel at (1,1).
    let fg = Rgba { r: 0xff, g: 0xff, b: 0xff, a: 255 };
    assert_eq!(buf[4], fg);
}

#[test]
fn render_skips_missing_glyph() {
    let theme = test_theme();
    let mut renderer = tiny_renderer(theme.clone());

    // A styled miss falls back to the plain attempt; a double miss is a
    // cached "no glyph" and the cell keeps its background.
    renderer.store_glyph('Y', true, false, None, None);
    assert!(renderer.has_glyph('Y', true, false));

    let mut pen = plain_pen();
    pen.bold = true;
    let buf = renderer.render(&one_cell('Y', pen), None);

    let theme_bg = Rgba { r: 0xbb, g: 0xbb, b: 0xbb, a: 255 };
    assert_eq!(buf[4], theme_bg);
}

#[test]
fn store_glyph_falls_back_to_plain_variant() {
    let theme = test_theme();
    let mut renderer = tiny_renderer(theme.clone());

    let plain = Glyph::new(1, 1, 0, 0, vec![255]).unwrap();
    renderer.store_glyph('Z', true, false, None, Some(plain));

    let mut pen = plain_pen();
    pen.bold = true;
    let buf = renderer.render(&one_cell('Z', pen), None);

    let fg = Rgba { r: 0xff, g: 0xff, b: 0xff, a: 255 };
    assert_eq!(buf[4], fg);
}

#[test]
fn faint_halves_coverage() {
    let theme = test_theme();
    let mut renderer = tiny_renderer(theme.clone());

    let glyph = Glyph::new(1, 1, 0, 0, vec![255]).unwrap();
    renderer.store_glyph('X', false, false, Some(glyph), None);

    let mut pen = plain_pen();
    pen.faint = true;
    let buf = renderer.render(&one_cell('X', pen), None);

    // Coverage 127 of white over 0xbb: 0xbb*128/255 + 0xff*127/255 = 93 + 127.
    assert_eq!(buf[4], Rgba { r: 220, g: 220, b: 220, a: 255 });
}

#[test]
fn glyph_validation_rejects_wrong_bitmap_size() {
    assert!(Glyph::new(2, 2, 0, 0, vec![0, 0, 0]).is_none());
    assert!(Glyph::new(2, 2, 0, 0, vec![0, 0, 0, 0]).is_some());
    assert!(Glyph::new(1, 1, 99999, 0, vec![0]).is_none());
}

#[test]
fn missing_glyphs_skips_spaces_and_cached() {
    let theme = test_theme();
    let mut renderer = tiny_renderer(theme.clone());
    renderer.store_glyph('a', false, false, None, None);

    let lines = vec![TermLine {
        cells: vec![
            TermCell { ch: 'a', width: 1, pen: plain_pen() },
            TermCell { ch: ' ', width: 1, pen: plain_pen() },
            TermCell { ch: 'b', width: 1, pen: plain_pen() },
        ],
    }];
    let missing = renderer.missing_glyphs(&lines);

    assert_eq!(missing, vec![('b', false, false)]);
}

#[test]
fn underline_paints_one_pixel_row() {
    let theme = test_theme();
    let settings = Settings {
        terminal_size: (1, 1),
        font_families: vec![],
        font_size: 1,
        line_height: 300,
        theme,
    };
    // 3x6 pixels; the underline sits at margin + round(1.2 * font size).
    let renderer = FontdueRenderer::new(settings, 100).unwrap();
    assert_eq!(renderer.pixel_size(), (3, 6));

    let mut pen = plain_pen();
    pen.underline = true;
    let buf = renderer.render(&one_cell(' ', pen), None);

    let fg = Rgba { r: 0xff, g: 0xff, b: 0xff, a: 255 };
    let theme_bg = Rgba { r: 0xbb, g: 0xbb, b: 0xbb, a: 255 };
    assert_eq!(buf[3 * 3 + 1], fg);
    assert_eq!(buf[2 * 3 + 1], theme_bg);
    assert_eq!(buf[4 * 3 + 1], theme_bg);
}
