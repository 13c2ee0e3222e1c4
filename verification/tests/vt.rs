use agg::vt;

fn us(seconds: f64) -> u64 {
    (seconds * 1_000_000.0).round() as u64
}

fn ev(seconds: f64, data: &str) -> (u64, String) {
    (us(seconds), data.to_string())
}

#[test]
fn frames() {
    let stdout = vec![ev(0.0, "foo"), ev(1.0, "\x1b[0m"), ev(2.0, "bar"), ev(3.0, "!")];

    let fs = vt::frames(&stdout, (4, 2));

    assert_eq!(fs.len(), 3);

    let (time, lines, cursor) = &fs[0];
    let lines: Vec<String> = lines.iter().map(|l| l.text()).collect();

    assert_eq!(*time, us(0.0));
    assert_eq!(*cursor, Some((3, 0)));
    assert_eq!(lines[0], "foo ");
    assert_eq!(lines[1], "    ");

    let (time, lines, cursor) = &fs[1];
    let lines: Vec<String> = lines.iter().map(|l| l.text()).collect();

    assert_eq!(*time, us(2.0));
    assert_eq!(*cursor, Some((2, 1)));
    assert_eq!(lines[0], "foob");
    assert_eq!(lines[1], "ar  ");

    let (time, lines, cursor) = &fs[2];
    let lines: Vec<String> = lines.iter().map(|l| l.text()).collect();

    assert_eq!(*time, us(3.0));
    assert_eq!(*cursor, Some((3, 1)));
    assert_eq!(lines[0], "foob");
    assert_eq!(lines[1], "ar! ");
}

#[test]
fn frames_suppresses_repeated_no_effect_text() {
    // Feeding the same visually inert text twice in a row produces at most
    // one frame for the pair.
    let stdout = vec![ev(0.0, "foo"), ev(1.0, "\x1b[0m"), ev(2.0, "\x1b[0m")];

    let fs = vt::frames(&stdout, (4, 2));

    assert_eq!(fs.len(), 1);
    assert_eq!(fs[0].0, us(0.0));
}

#[test]
fn frames_grid_always_full_size() {
    let stdout = vec![ev(0.0, "x")];

    let fs = vt::frames(&stdout, (3, 5));

    assert_eq!(fs.len(), 1);
    assert_eq!(fs[0].1.len(), 5);
    for line in &fs[0].1 {
        assert_eq!(line.cells.len(), 3);
    }
}

#[test]
fn frames_reports_styled_cells() {
    // Red bold foreground via SGR 1;31.
    let stdout = vec![ev(0.0, "\x1b[1;31mA")];

    let fs = vt::frames(&stdout, (2, 1));

    assert_eq!(fs.len(), 1);
    let cell = &fs[0].1[0].cells[0];
    assert_eq!(cell.ch, 'A');
    assert!(cell.pen.bold);
    assert_eq!(cell.pen.foreground, Some(agg::vt::PenColor::Indexed(1)));
}
