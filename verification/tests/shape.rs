use heart_screensaver::color::{Rgb, Rgba};
use heart_screensaver::config::ShapeType;
use heart_screensaver::geometry::{Direction, HeartSample, Outlines, Point, Triangle};
use heart_screensaver::shape::{Shape, COLOR_TRANSITION_RATE};
use heart_screensaver::units::{ONE, TWO_PI};

fn red() -> Rgb {
    Rgb { r: 1_000_000, g: 0, b: 0 }
}

fn blue() -> Rgb {
    Rgb { r: 0, g: 0, b: 1_000_000 }
}

fn green() -> Rgb {
    Rgb { r: 0, g: 1_000_000, b: 0 }
}

fn outlines() -> Outlines {
    // the six corners at 0, 60, ..., 300 degrees, and the heart at 0, 90
    // and 180 degrees
    let hexagon = vec![
        Direction { cos: 1_000_000, sin: 0 },
        Direction { cos: 500_000, sin: 866_025 },
        Direction { cos: -500_000, sin: 866_025 },
        Direction { cos: -1_000_000, sin: 0 },
        Direction { cos: -500_000, sin: -866_025 },
        Direction { cos: 500_000, sin: -866_025 },
    ];
    let heart = vec![
        HeartSample { sin_t: 0, cos_t: 1_000_000, cos_2t: 1_000_000, cos_3t: 1_000_000, cos_4t: 1_000_000 },
        HeartSample { sin_t: 1_000_000, cos_t: 0, cos_2t: -1_000_000, cos_3t: 0, cos_4t: 1_000_000 },
        HeartSample { sin_t: 0, cos_t: -1_000_000, cos_2t: 1_000_000, cos_3t: -1_000_000, cos_4t: 1_000_000 },
    ];
    Outlines { hexagon, heart }
}

#[test]
fn transition_rate_is_three_tenths_per_second() {
    assert_eq!(COLOR_TRANSITION_RATE, 300_000);
    assert_eq!(Shape::transition_step(1_000_000), 300_000);
    assert_eq!(Shape::transition_step(100_000), 30_000);
    assert_eq!(Shape::transition_step(16_667), 5_000);
    assert_eq!(Shape::transition_step(0), 0);
    assert_eq!(Shape::transition_step(u32::MAX), 1_288_490_188);
}

#[test]
fn new_shape_starts_a_fade_at_its_place() {
    for _ in 0..200 {
        let shape = Shape::new(120, -45, 40);
        assert_eq!(shape.x, 120);
        assert_eq!(shape.y, -45);
        assert_eq!(shape.radius, 40);
        assert_eq!(shape.transition_progress, 0);
        assert!(shape.phase_offset < TWO_PI);
        assert!(shape.color.r < ONE && shape.color.g < ONE && shape.color.b < ONE);
        assert!(shape.next_color.r < ONE && shape.next_color.g < ONE && shape.next_color.b < ONE);
        assert!(shape.is_valid());
    }
}

#[test]
fn with_colors_keeps_what_it_is_given() {
    let shape = Shape::with_colors(7, 9, 40, red(), blue(), 1_234_567);
    assert_eq!(
        shape,
        Shape {
            x: 7,
            y: 9,
            radius: 40,
            color: red(),
            next_color: blue(),
            transition_progress: 0,
            phase_offset: 1_234_567,
        }
    );
}

#[test]
fn update_crosses_one_on_the_thirty_fourth_tenth_of_a_second() {
    let mut shape = Shape::with_colors(0, 0, 40, red(), blue(), 0);
    for step in 1..=33u32 {
        shape.update(100_000);
        assert_eq!(shape.color, red());
        assert_eq!(shape.next_color, blue());
        assert_eq!(shape.transition_progress, step * 30_000);
    }
    assert_eq!(shape.transition_progress, 990_000);
    shape.update(100_000);
    assert_eq!(shape.color, blue());
    assert_eq!(shape.transition_progress, 0);
    assert!(shape.transition_progress < 30_000);
    assert!(shape.next_color.is_valid());
    assert!(shape.is_valid());
    assert_eq!((shape.x, shape.y, shape.radius, shape.phase_offset), (0, 0, 40, 0));
}

#[test]
fn advance_takes_up_the_fresh_colour_when_the_fade_completes() {
    let mut shape = Shape::with_colors(1, 2, 3, red(), blue(), 4);
    shape.advance(3_000_000, green());
    assert_eq!(shape.transition_progress, 900_000);
    assert_eq!(shape.color, red());
    assert_eq!(shape.next_color, blue());
    shape.advance(333_334, green());
    assert_eq!(shape.transition_progress, 0);
    assert_eq!(shape.color, blue());
    assert_eq!(shape.next_color, green());
    assert_eq!((shape.x, shape.y, shape.radius, shape.phase_offset), (1, 2, 3, 4));
}

#[test]
fn advance_completes_exactly_at_one() {
    let mut shape = Shape::with_colors(0, 0, 1, red(), blue(), 0);
    // 3.333333 s * 0.3 = 0.999999: one millionth short
    shape.advance(3_333_333, green());
    assert_eq!(shape.transition_progress, 999_999);
    assert_eq!(shape.color, red());
    let mut other = Shape::with_colors(0, 0, 1, red(), blue(), 0);
    other.advance(3_333_334, green());
    assert_eq!(other.transition_progress, 0);
    assert_eq!(other.color, blue());
}

#[test]
fn a_long_step_completes_the_fade_once() {
    let mut shape = Shape::with_colors(0, 0, 1, red(), blue(), 0);
    shape.advance(u32::MAX, green());
    assert_eq!(shape.color, blue());
    assert_eq!(shape.next_color, green());
    assert_eq!(shape.transition_progress, 0);
}

#[test]
fn shape_phase_uses_its_own_offset() {
    let shape = Shape::with_colors(0, 0, 40, red(), blue(), 2_000_000);
    assert_eq!(shape.phase(1_000_000, 900_000), 3_000_000);
    assert_eq!(shape.phase(0, 0), 2_000_000);
}

#[test]
fn shape_validity_checks_every_field() {
    let good = Shape::with_colors(0, 0, 40, red(), blue(), 0);
    assert!(good.is_valid());
    assert!(!Shape { transition_progress: ONE, ..good }.is_valid());
    assert!(!Shape { phase_offset: TWO_PI, ..good }.is_valid());
    assert!(!Shape { color: Rgb { r: ONE + 1, g: 0, b: 0 }, ..good }.is_valid());
    assert!(!Shape { next_color: Rgb { r: 0, g: 0, b: ONE + 1 }, ..good }.is_valid());
    assert!(!Shape { x: i64::MAX, ..good }.is_valid());
    assert!(!Shape { y: i64::MIN, ..good }.is_valid());
}

#[test]
fn draw_is_nothing_at_or_below_the_floor() {
    let shape = Shape::with_colors(100, 200, 40, red(), blue(), 0);
    let outlines = outlines();
    assert!(shape.draw(-500_000, ShapeType::Hexagon, 0, &outlines).is_none());
    assert!(shape.draw(0, ShapeType::Heart, 0, &outlines).is_none());
    // (0.1)^2 = 0.01 is not above the floor
    assert!(shape.draw(100_000, ShapeType::Hexagon, 0, &outlines).is_none());
    assert!(shape.draw(1_000_000, ShapeType::Hexagon, 1_000_000, &outlines).is_none());
    // 0.100004^2 rounds down to 0.01; 0.100005^2 is the first above it
    assert!(shape.draw(100_004, ShapeType::Hexagon, 0, &outlines).is_none());
    assert!(shape.draw(100_005, ShapeType::Hexagon, 0, &outlines).is_some());
}

#[test]
fn draw_tints_with_the_fade_and_the_opacity() {
    let mut shape = Shape::with_colors(100, 200, 40, red(), blue(), 0);
    shape.advance(1_000_000, green());
    assert_eq!(shape.transition_progress, 300_000);
    let outlines = outlines();
    let drawing = shape.draw(500_000, ShapeType::Hexagon, 0, &outlines).unwrap();
    assert_eq!(drawing.color, Rgba { r: 700_000, g: 0, b: 300_000, a: 250_000 });
}

#[test]
fn draw_hexagon_is_a_closed_fan_of_six() {
    let shape = Shape::with_colors(100, 200, 40, red(), blue(), 0);
    let outlines = outlines();
    let drawing = shape.draw(1_000_000, ShapeType::Hexagon, 500_000, &outlines).unwrap();
    assert_eq!(drawing.color.a, ONE);
    let center = Point { x: 100, y: 200 };
    let corners = [
        Point { x: 140, y: 200 },
        Point { x: 120, y: 234 },
        Point { x: 80, y: 234 },
        Point { x: 60, y: 200 },
        Point { x: 80, y: 166 },
        Point { x: 120, y: 166 },
    ];
    assert_eq!(drawing.triangles.len(), 6);
    for i in 0..6usize {
        assert_eq!(
            drawing.triangles[i],
            Triangle { a: center, b: corners[i], c: corners[(i + 1) % 6] }
        );
    }
}

#[test]
fn draw_heart_is_an_open_fan() {
    let shape = Shape::with_colors(100, 200, 40, red(), blue(), 0);
    let outlines = outlines();
    let drawing = shape.draw(1_000_000, ShapeType::Heart, 0, &outlines).unwrap();
    let center = Point { x: 100, y: 200 };
    // t = 0: (0, -5) * 2; t = pi/2: (16, -4) * 2; t = pi: (0, 17) * 2
    let outline = [Point { x: 100, y: 190 }, Point { x: 132, y: 192 }, Point { x: 100, y: 234 }];
    assert_eq!(drawing.triangles.len(), 2);
    assert_eq!(drawing.triangles[0], Triangle { a: center, b: outline[0], c: outline[1] });
    assert_eq!(drawing.triangles[1], Triangle { a: center, b: outline[1], c: outline[2] });
}
