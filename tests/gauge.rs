use egui_gauge::{angle_for, sector_points, ticks, Gauge, Polar, Rgba, Shape, Theme};

const BLUE: Rgba = Rgba { r: 0, g: 0, b: 255, a: 255 };
const RED: Rgba = Rgba { r: 255, g: 0, b: 0, a: 255 };

fn light() -> Theme {
    Theme {
        dark_mode: false,
        background: Rgba { r: 248, g: 248, b: 248, a: 255 },
        text: Rgba { r: 60, g: 60, b: 60, a: 255 },
    }
}

fn polygon_len(s: &Shape) -> usize {
    match s {
        Shape::Polygon { points, .. } => points.len(),
        _ => panic!("not a polygon"),
    }
}

#[test]
fn middle_value_points_straight_up() {
    let g = Gauge::new(50, 0..=100, 200, BLUE);
    assert_eq!(g.angle(), 90);
}

#[test]
fn value_at_max_points_to_lower_right() {
    let g = Gauge::new(200, 100..=200, 300, RED);
    assert_eq!(g.angle(), -45);
}

#[test]
fn bounds_map_to_ends_of_sweep() {
    for (min, max) in [(0i64, 1i64), (-7, 13), (100, 200), (i64::MIN, i64::MAX)] {
        assert_eq!(angle_for(min, min, max), 225);
        assert_eq!(angle_for(max, min, max), -45);
    }
}

#[test]
fn angle_falls_as_value_rises() {
    let angles: Vec<i32> = (0..=100).map(|v| angle_for(v, 0, 100)).collect();
    assert!(angles.windows(2).all(|w| w[0] >= w[1]));
    assert!(angle_for(10, 0, 100) > angle_for(20, 0, 100));
    // values closer than the angle's resolution may share a whole degree
    assert_eq!(angle_for(1, 0, 1000), angle_for(2, 0, 1000));
}

#[test]
fn angle_truncates_toward_zero() {
    // 225 - 270 * 83 / 100 = 0.9 and 225 - 270 * 84 / 100 = -1.8
    assert_eq!(angle_for(83, 0, 100), 0);
    assert_eq!(angle_for(84, 0, 100), -1);
}

#[test]
fn values_outside_range_extrapolate() {
    assert_eq!(angle_for(-100, 0, 100), 495);
    assert_eq!(angle_for(200, 0, 100), -315);
    assert_eq!(angle_for(i64::MAX, 0, 1), i32::MIN);
}

#[test]
fn empty_range_saturates() {
    assert_eq!(angle_for(5, 5, 5), 0);
    assert_eq!(angle_for(6, 5, 5), i32::MIN);
    assert_eq!(angle_for(4, 5, 5), i32::MAX);
}

#[test]
fn seven_ticks_over_wide_range() {
    let t = ticks(0, 100);
    let labels: Vec<i64> = t.iter().map(|k| k.label).collect();
    assert_eq!(labels, vec![0, 16, 33, 50, 66, 83, 100]);
    let sixths: Vec<i128> = t.iter().map(|k| k.sixths).collect();
    assert_eq!(sixths, vec![0, 100, 200, 300, 400, 500, 600]);
    assert_eq!(t[0].angle, 225);
    assert_eq!(t[3].angle, 90);
    assert_eq!(t[6].angle, -45);
}

#[test]
fn last_tick_snaps_to_max() {
    let labels: Vec<i64> = ticks(0, 3).iter().map(|k| k.label).collect();
    assert_eq!(labels, vec![0, 0, 1, 1, 2, 3]);
    let sixths: Vec<i128> = ticks(0, 3).iter().map(|k| k.sixths).collect();
    assert_eq!(sixths, vec![0, 3, 6, 9, 12, 18]);
    let unit: Vec<i64> = ticks(4, 5).iter().map(|k| k.label).collect();
    assert_eq!(unit, vec![4, 5]);
}

#[test]
fn degenerate_ranges_give_few_ticks() {
    assert_eq!(ticks(5, 5).len(), 1);
    let rev: Vec<i64> = ticks(10, 0).iter().map(|k| k.label).collect();
    assert_eq!(rev, vec![10, 0]);
}

#[test]
fn proportions_follow_size() {
    let g = Gauge::new(0, 0..=10, 200, BLUE);
    assert_eq!(g.text_clearance(), 3000);
    assert_eq!(g.inner_width(), 24000);
    assert_eq!(g.radius(), 12000);
    assert_eq!(g.thickness(), 1600);
}

#[test]
fn caption_replaces_previous() {
    let g = Gauge::new(1, 0..=2, 10, RED).text("first").text("second");
    assert_eq!(g.text, "second");
    assert_eq!((g.value, g.min_value, g.max_value, g.size), (1, 0, 2, 10));
}

#[test]
fn no_caption_no_caption_shape() {
    let g = Gauge::new(50, 0..=100, 200, BLUE);
    let s = g.shapes(&light());
    assert_eq!(s.len(), 15);
    assert!(!s.iter().any(|x| matches!(x, Shape::Caption { .. })));
    let texts = s.iter().filter(|x| matches!(x, Shape::Number { .. })).count();
    assert_eq!(texts, 8);
}

#[test]
fn caption_drawn_last() {
    let g = Gauge::new(50, 0..=100, 200, BLUE).text("hello");
    let s = g.shapes(&light());
    assert_eq!(s.len(), 16);
    match &s[15] {
        Shape::Caption { text, below_center, font_size, wrap_width, .. } => {
            assert_eq!(text, "hello");
            assert_eq!((*below_center, *font_size, *wrap_width), (4800, 2400, 16000));
        }
        _ => panic!("caption expected last"),
    }
}

#[test]
fn layers_in_order() {
    let g = Gauge::new(50, 0..=100, 200, BLUE);
    let t = light();
    let s = g.shapes(&t);
    assert_eq!(polygon_len(&s[0]), 272);
    assert_eq!(polygon_len(&s[1]), 225 - 90 + 2);
    assert_eq!(polygon_len(&s[2]), 271);
    assert_eq!(polygon_len(&s[3]), 4);
    match &s[0] {
        Shape::Polygon { points, fill, .. } => {
            assert_eq!(points[0], Polar { degrees: -45, distance: 12000 });
            assert_eq!(points[271], Polar { degrees: 0, distance: 0 });
            assert_eq!(*fill, Rgba { r: 160, g: 160, b: 160, a: 255 });
        }
        _ => panic!(),
    }
    match &s[4] {
        Shape::Circle { center, radius, fill, .. } => {
            assert_eq!(*center, Polar { degrees: 225, distance: 11200 });
            assert_eq!(*radius, 800);
            assert_eq!(*fill, BLUE);
        }
        _ => panic!(),
    }
    match &s[6] {
        Shape::Circle { center, fill, stroke, .. } => {
            assert_eq!(center.degrees, 90);
            assert_eq!(*fill, Rgba { r: 255, g: 255, b: 255, a: 255 });
            assert_eq!((stroke.width, stroke.color), (1, BLUE));
        }
        _ => panic!(),
    }
    match &s[7] {
        Shape::Number { at, value, font_size, color } => {
            assert_eq!((*at, *value, *font_size, *color), (Polar { degrees: 0, distance: 0 }, 50, 4800, t.text));
        }
        _ => panic!(),
    }
    match &s[8] {
        Shape::Number { at, value, font_size, .. } => {
            assert_eq!((*at, *value, *font_size), (Polar { degrees: 225, distance: 13600 }, 0, 1600));
        }
        _ => panic!(),
    }
}

#[test]
fn dark_theme_uses_white_track() {
    let t = Theme { dark_mode: true, ..light() };
    let s = Gauge::new(0, 0..=1, 10, RED).shapes(&t);
    match &s[5] {
        Shape::Circle { fill, .. } => assert_eq!(*fill, Rgba { r: 255, g: 255, b: 255, a: 255 }),
        _ => panic!(),
    }
}

#[test]
fn value_arc_held_within_sweep() {
    let below = Gauge::new(-50, 0..=100, 100, RED).shapes(&light());
    assert_eq!(polygon_len(&below[1]), 2);
    let above = Gauge::new(500, 0..=100, 100, RED).shapes(&light());
    assert_eq!(polygon_len(&above[1]), 272);
}

#[test]
fn drawing_twice_gives_same_shapes() {
    let g = Gauge::new(37, 0..=100, 200, BLUE).text("x");
    let a = format!("{:?}", g.shapes(&light()));
    let b = format!("{:?}", g.shapes(&light()));
    assert_eq!(a, b);
}

#[test]
fn sector_with_and_without_center() {
    let p = sector_points(10, 0, 2, true);
    assert_eq!(p.len(), 4);
    assert_eq!(p[2], Polar { degrees: 2, distance: 10 });
    assert_eq!(p[3], Polar { degrees: 0, distance: 0 });
    assert_eq!(sector_points(10, 5, 4, false).len(), 0);
}
