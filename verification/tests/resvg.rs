use agg::renderer::resvg::{ResvgRenderer, color_to_style, text_class, rect_style};
use agg::renderer::{Settings, text_attrs};
use agg::theme::Theme;
use agg::vt::{Pen, PenColor, TermCell, TermLine};

fn test_theme() -> Theme {
    Theme::from_str("bbbbbb,ffffff,000000,111111,222222,333333,444444,555555,666666,777777")
        .unwrap()
}

fn plain_pen() -> Pen {
    Pen {
        foreground: None,
        background: None,
        bold: false,
        faint: false,
        italic: false,
        underline: false,
        blink: false,
        inverse: false,
    }
}

fn test_renderer() -> ResvgRenderer {
    ResvgRenderer::new(Settings {
        terminal_size: (4, 2),
        font_families: vec!["Monospace".to_string()],
        font_size: 14,
        line_height: 140,
        theme: test_theme(),
    })
}

#[test]
fn styles_resolve_colors() {
    let theme = test_theme();
    assert_eq!(color_to_style(&PenColor::Indexed(3), &theme), "fill: rgb(51,51,51)");
    assert_eq!(
        color_to_style(&PenColor::Rgb(agg::theme::Rgb { r: 1, g: 2, b: 3 }), &theme),
        "fill: rgb(1,2,3)"
    );
}

#[test]
fn class_list_follows_attributes() {
    let theme = test_theme();
    let mut pen = plain_pen();
    pen.bold = true;
    pen.italic = true;
    pen.underline = true;
    let attrs = text_attrs(&pen, &None, 0, 0, &theme);
    assert_eq!(text_class(&attrs), "br it un");

    let attrs = text_attrs(&plain_pen(), &None, 0, 0, &theme);
    assert_eq!(text_class(&attrs), "");
}

#[test]
fn rect_style_needs_background() {
    let theme = test_theme();
    let attrs = text_attrs(&plain_pen(), &None, 0, 0, &theme);
    assert_eq!(rect_style(&attrs, &theme), "");

    let mut pen = plain_pen();
    pen.background = Some(PenColor::Indexed(1));
    let attrs = text_attrs(&pen, &None, 0, 0, &theme);
    assert_eq!(rect_style(&attrs, &theme), "fill: rgb(17,17,17)");
}

#[test]
fn document_carries_header_and_escaped_text() {
    let renderer = test_renderer();
    let lines = vec![
        TermLine {
            cells: vec![
                TermCell { ch: '<', width: 1, pen: plain_pen() },
                TermCell { ch: '&', width: 1, pen: plain_pen() },
                TermCell { ch: 'a', width: 1, pen: plain_pen() },
                TermCell { ch: ' ', width: 1, pen: plain_pen() },
            ],
        },
        TermLine { cells: vec![TermCell { ch: ' ', width: 1, pen: plain_pen() }] },
    ];

    let svg = renderer.svg_frame(&lines, None);

    assert!(svg.starts_with("<?xml version=\"1.0\"?>"));
    assert!(svg.contains("font-size=\"14px\""));
    assert!(svg.contains("font-family=\"Monospace\""));
    // 14 * 1.4 * (2+1) rows = 58.80 px tall, (4+2) * 14 * 0.6 = 50.40 wide.
    assert!(svg.contains("width=\"50.40\""));
    assert!(svg.contains("height=\"58.80\""));
    assert!(svg.contains("&lt;"));
    assert!(svg.contains("&amp;"));
    assert!(svg.ends_with("</svg></svg>"));
}

#[test]
fn background_layer_emits_one_rect_per_colored_cell() {
    let renderer = test_renderer();
    let mut pen = plain_pen();
    pen.background = Some(PenColor::Indexed(2));
    let lines = vec![TermLine {
        cells: vec![
            TermCell { ch: 'x', width: 1, pen },
            TermCell { ch: 'y', width: 1, pen: plain_pen() },
        ],
    }];

    let svg = renderer.svg_frame(&lines, None);

    assert_eq!(svg.matches("<rect x=").count(), 1);
    assert!(svg.contains("fill: rgb(34,34,34)"));
}

#[test]
fn cursor_cell_gets_background_in_svg() {
    let renderer = test_renderer();
    let lines = vec![TermLine {
        cells: vec![TermCell { ch: 'x', width: 1, pen: plain_pen() }],
    }];

    let without_cursor = renderer.svg_frame(&lines, None);
    let with_cursor = renderer.svg_frame(&lines, Some((0, 0)));

    assert_eq!(without_cursor.matches("<rect x=").count(), 0);
    assert_eq!(with_cursor.matches("<rect x=").count(), 1);
}
