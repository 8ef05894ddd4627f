use heart_screensaver::color::Rgb;
use heart_screensaver::config::{Config, ShapeType};
use heart_screensaver::geometry::{Direction, HeartSample, Outlines, Point};
use heart_screensaver::grid::create_hexgrid;
use heart_screensaver::screensaver::{Input, Screensaver, SHAPE_RADIUS};
use heart_screensaver::shape::Shape;

fn config() -> Config {
    Config { shape: ShapeType::Heart, threshold: 500_000 }
}

fn still(at: Point) -> Input {
    Input { mouse: at, escape: false, mouse_button: false }
}

fn origin() -> Point {
    Point { x: 0, y: 0 }
}

fn session() -> Screensaver {
    Screensaver::new(config(), SHAPE_RADIUS, 800, 600, origin())
}

fn outlines() -> Outlines {
    let hexagon = vec![
        Direction { cos: 1_000_000, sin: 0 },
        Direction { cos: 500_000, sin: 866_025 },
        Direction { cos: -500_000, sin: 866_025 },
        Direction { cos: -1_000_000, sin: 0 },
        Direction { cos: -500_000, sin: -866_025 },
        Direction { cos: 500_000, sin: -866_025 },
    ];
    let heart = vec![
        HeartSample { sin_t: 0, cos_t: 1_000_000, cos_2t: 1_000_000, cos_3t: 1_000_000, cos_4t: 1_000_000 },
        HeartSample { sin_t: 1_000_000, cos_t: 0, cos_2t: -1_000_000, cos_3t: 0, cos_4t: 1_000_000 },
        HeartSample { sin_t: 0, cos_t: -1_000_000, cos_2t: 1_000_000, cos_3t: -1_000_000, cos_4t: 1_000_000 },
    ];
    Outlines { hexagon, heart }
}

#[test]
fn new_session_has_a_cell_at_each_centre_of_the_grid() {
    assert_eq!(SHAPE_RADIUS, 40);
    let session = session();
    let grid = create_hexgrid(40, 800, 600);
    assert_eq!(session.shapes.len(), 240);
    assert_eq!(session.shapes.len(), grid.len());
    for i in 0..grid.len() {
        let shape = session.shapes[i];
        assert_eq!(Point { x: shape.x, y: shape.y }, grid[i]);
        assert_eq!(shape.radius, 40);
        assert_eq!(shape.transition_progress, 0);
        assert!(shape.is_valid());
    }
    assert_eq!(session.config, config());
    assert_eq!(session.time, 0);
    assert!(!session.mouse_moved);
    assert_eq!(session.last_mouse_pos, origin());
}

#[test]
fn new_session_gives_the_cells_different_phases() {
    let session = session();
    let first: u32 = session.shapes[0].phase_offset;
    assert!(session.shapes.iter().any(|s| s.phase_offset != first));
}

#[test]
fn frame_moves_the_clock_and_every_cell() {
    let mut session = session();
    let before: Vec<Shape> = session.shapes.clone();
    assert!(session.frame(100_000, still(origin())));
    assert_eq!(session.time, 100_000);
    assert_eq!(session.shapes.len(), before.len());
    for i in 0..before.len() {
        assert_eq!(session.shapes[i], Shape { transition_progress: 30_000, ..before[i] });
    }
    assert!(session.frame(16_667, still(origin())));
    assert_eq!(session.time, 116_667);
    assert_eq!(session.shapes[7].transition_progress, 35_000);
}

#[test]
fn frame_completes_the_fades_after_thirty_four_tenths() {
    let mut session = session();
    let before: Vec<Shape> = session.shapes.clone();
    for _ in 0..33 {
        assert!(session.frame(100_000, still(origin())));
    }
    assert_eq!(session.shapes[0].color, before[0].color);
    assert_eq!(session.shapes[0].transition_progress, 990_000);
    assert!(session.frame(100_000, still(origin())));
    for i in 0..before.len() {
        assert_eq!(session.shapes[i].color, before[i].next_color);
        assert_eq!(session.shapes[i].transition_progress, 0);
        assert!(session.shapes[i].next_color.is_valid());
    }
    assert_eq!(session.time, 3_400_000);
}

#[test]
fn escape_ends_the_session() {
    let mut session = session();
    let before: Vec<Shape> = session.shapes.clone();
    let input = Input { mouse: origin(), escape: true, mouse_button: false };
    assert!(!session.frame(100_000, input));
    assert_eq!(session.shapes, before);
    assert_eq!(session.time, 100_000);
}

#[test]
fn a_mouse_button_ends_the_session() {
    let mut session = session();
    let input = Input { mouse: origin(), escape: false, mouse_button: true };
    assert!(!session.frame(100_000, input));
}

#[test]
fn the_first_pointer_move_is_forgiven_and_the_second_ends_the_session() {
    let mut session = session();
    let a = Point { x: 10, y: 0 };
    let b = Point { x: 10, y: 1 };
    assert!(session.frame(1_000, still(origin())));
    assert!(!session.mouse_moved);
    assert!(session.frame(1_000, still(a)));
    assert!(session.mouse_moved);
    assert_eq!(session.last_mouse_pos, a);
    // resting where it moved to is no further move
    assert!(session.frame(1_000, still(a)));
    assert!(session.frame(1_000, still(a)));
    let before: Vec<Shape> = session.shapes.clone();
    assert!(!session.frame(1_000, still(b)));
    assert_eq!(session.last_mouse_pos, a);
    assert!(session.mouse_moved);
    assert_eq!(session.shapes, before);
    assert_eq!(session.time, 5_000);
}

#[test]
fn going_back_to_the_start_is_a_second_move() {
    let mut session = session();
    assert!(session.frame(1_000, still(Point { x: 1, y: 1 })));
    assert!(!session.frame(1_000, still(origin())));
}

#[test]
fn a_first_move_together_with_escape_is_noted_and_ends_the_session() {
    let mut session = session();
    let a = Point { x: 3, y: 4 };
    let input = Input { mouse: a, escape: true, mouse_button: false };
    assert!(!session.frame(1_000, input));
    assert!(session.mouse_moved);
    assert_eq!(session.last_mouse_pos, a);
}

#[test]
fn the_clock_stops_at_its_largest_time() {
    let mut session = session();
    session.time = u64::MAX - 5;
    assert!(session.frame(3, still(origin())));
    assert_eq!(session.time, u64::MAX - 2);
    assert!(session.frame(3, still(origin())));
    assert_eq!(session.time, u64::MAX);
    assert!(session.frame(u32::MAX, still(origin())));
    assert_eq!(session.time, u64::MAX);
}

#[test]
fn phases_follow_the_clock() {
    let mut session = session();
    let offsets: Vec<u32> = session.shapes.iter().map(|s| s.phase_offset).collect();
    let angles = session.phases();
    assert_eq!(angles.len(), 240);
    for i in 0..240usize {
        assert_eq!(angles[i], offsets[i] as u128);
    }
    assert!(session.frame(2_000_000, still(origin())));
    let angles = session.phases();
    for i in 0..240usize {
        // two seconds at (1 - 0.5) * 10 radians per second
        assert_eq!(angles[i], 10_000_000 + offsets[i] as u128);
    }
}

#[test]
fn draw_keeps_only_the_cells_that_show() {
    let red = Rgb { r: 1_000_000, g: 0, b: 0 };
    let blue = Rgb { r: 0, g: 0, b: 1_000_000 };
    let shapes = vec![
        Shape::with_colors(0, 0, 40, red, blue, 0),
        Shape::with_colors(100, 0, 40, blue, red, 0),
        Shape::with_colors(200, 0, 40, red, red, 0),
        Shape::with_colors(300, 0, 40, blue, blue, 0),
    ];
    let session = Screensaver {
        config: config(),
        shapes,
        time: 0,
        mouse_moved: false,
        last_mouse_pos: origin(),
    };
    let sines: Vec<i32> = vec![1_000_000, 500_000, -1_000_000, 750_000];
    let drawings = session.draw(&sines, &outlines());
    assert_eq!(drawings.len(), 2);
    assert_eq!((drawings[0].color.r, drawings[0].color.b, drawings[0].color.a), (1_000_000, 0, 1_000_000));
    assert_eq!(drawings[0].triangles.len(), 2);
    assert_eq!(drawings[0].triangles[0].a, Point { x: 0, y: 0 });
    assert_eq!((drawings[1].color.r, drawings[1].color.b, drawings[1].color.a), (0, 1_000_000, 250_000));
    assert_eq!(drawings[1].triangles[0].a, Point { x: 300, y: 0 });
    let hidden: Vec<i32> = vec![0, 500_000, -1, 549_999];
    assert!(session.draw(&hidden, &outlines()).is_empty());
}
