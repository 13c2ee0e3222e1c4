use agg::events;

fn us(seconds: f64) -> u64 {
    (seconds * 1_000_000.0).round() as u64
}

fn ev(seconds: f64, data: &str) -> (u64, String) {
    (us(seconds), data.to_string())
}

#[test]
fn accelerate() {
    let stdout = vec![ev(0.0, "foo"), ev(1.0, "bar"), ev(2.0, "baz")];

    let stdout = events::accelerate(&stdout, 2_000_000);

    assert_eq!(&stdout[0], &ev(0.0, "foo"));
    assert_eq!(&stdout[1], &ev(0.5, "bar"));
    assert_eq!(&stdout[2], &ev(1.0, "baz"));
}

#[test]
fn batch() {
    let stdout = vec![ev(0.0, "foo"), ev(1.0, "bar"), ev(2.0, "baz")];

    let stdout = events::batch(&stdout, 30);

    assert_eq!(&stdout[0], &ev(0.0, "foo"));
    assert_eq!(&stdout[1], &ev(1.0, "bar"));
    assert_eq!(&stdout[2], &ev(2.0, "baz"));

    let stdout = vec![ev(0.0, "foo"), ev(0.033, "bar"), ev(0.066, "baz"), ev(1.0, "qux")];

    let stdout = events::batch(&stdout, 30);

    assert_eq!(&stdout[0], &ev(0.0, "foobar"));
    assert_eq!(&stdout[1], &ev(0.066, "baz"));
    assert_eq!(&stdout[2], &ev(1.0, "qux"));

    let stdout = vec![ev(0.0, ""), ev(1.0, "foo"), ev(2.0, "bar")];

    let stdout = events::batch(&stdout, 30);

    assert_eq!(&stdout[0], &ev(0.0, ""));
    assert_eq!(&stdout[1], &ev(1.0, "foo"));
    assert_eq!(&stdout[2], &ev(2.0, "bar"));
}

#[test]
fn limit_idle_time() {
    let stdout = vec![
        ev(0.0, "foo"),
        ev(1.0, "bar"),
        ev(3.5, "baz"),
        ev(4.0, "qux"),
        ev(7.5, "quux"),
    ];

    let stdout = events::limit_idle_time(&stdout, us(2.0));

    assert_eq!(&stdout[0], &ev(0.0, "foo"));
    assert_eq!(&stdout[1], &ev(1.0, "bar"));
    assert_eq!(&stdout[2], &ev(3.0, "baz"));
    assert_eq!(&stdout[3], &ev(3.5, "qux"));
    assert_eq!(&stdout[4], &ev(5.5, "quux"));
}

#[test]
fn limit_idle_time_keeps_small_gaps_exactly() {
    let stdout = vec![ev(0.0, "a"), ev(0.5, "b"), ev(1.9, "c")];

    let out = events::limit_idle_time(&stdout, us(2.0));

    assert_eq!(out, stdout);
}

#[test]
fn accelerate_truncates_fractional_microseconds() {
    // 1 microsecond at one third speed: 1 * 1_000_000 / 3_000_000 rounds
    // down to zero.
    let out = events::accelerate(&vec![(1, "x".to_string())], 3_000_000);
    assert_eq!(out[0].0, 0);
}

#[test]
fn batch_keeps_empty_anchor_only_at_time_zero() {
    // An empty event later in the stream is never emitted on its own: its
    // batch is dropped and the next event starts a fresh batch at its own
    // time.
    let stdout = vec![ev(0.0, "a"), ev(1.0, ""), ev(2.0, "b")];

    let out = events::batch(&stdout, 30);

    assert_eq!(out, vec![ev(0.0, "a"), ev(2.0, "b")]);
}

#[test]
fn transform_chains_all_three_stages() {
    // One event after five seconds of silence: the anchor seeds the first
    // frame, the idle limit pulls the event to two seconds, full speed and
    // the fps cap leave the rest unchanged.
    let stdout = vec![ev(5.0, "hello")];

    let out = events::transform_events(&stdout, us(2.0), 1_000_000, 30).unwrap();

    assert_eq!(out, vec![ev(0.0, ""), ev(2.0, "hello")]);
}

#[test]
fn transform_applies_speed_after_idle_limit() {
    let stdout = vec![ev(4.0, "a"), ev(5.0, "b")];

    let out = events::transform_events(&stdout, us(2.0), 2_000_000, 30).unwrap();

    // idle limit: 2.0 and 3.0; speed 2x: 1.0 and 1.5; the anchor stays.
    assert_eq!(out, vec![ev(0.0, ""), ev(1.0, "a"), ev(1.5, "b")]);
}
