use heart_screensaver::config::{clamp_threshold, parse_line, Config, Draft, Entry, ShapeType};
use heart_screensaver::text::{is_whitespace, split_lines, trim};

fn chars(s: &str) -> Vec<char> {
    s.chars().collect()
}

fn text(v: &[char]) -> String {
    v.iter().collect()
}

fn read_number(value: &[char]) -> Option<i64> {
    match text(value).parse::<f32>() {
        Ok(v) => Some((v as f64 * 1_000_000.0).round() as i64),
        Err(_) => None,
    }
}

fn write_number(threshold: u32) -> Vec<char> {
    chars(&format!("{}", threshold as f32 / 1_000_000.0))
}

fn load(content: &str) -> Config {
    let draft = Draft::scan(&chars(content));
    let readings: Vec<Option<i64>> = draft.thresholds.iter().map(|t| read_number(t)).collect();
    Config::load(draft.shape, &readings)
}

fn save(config: &Config) -> String {
    text(&config.save(&write_number(config.threshold)))
}

#[test]
fn default_config_is_hexagons_at_threshold_zero() {
    let config = Config::default();
    assert_eq!(config, Config { shape: ShapeType::Hexagon, threshold: 0 });
    assert_eq!(ShapeType::default(), ShapeType::Hexagon);
    assert!(config.is_valid());
}

#[test]
fn config_round_trip_keeps_heart_and_threshold() {
    let config = Config { shape: ShapeType::Heart, threshold: 730_000 };
    let saved = save(&config);
    assert_eq!(saved, "shape=heart\nthreshold=0.73\n");
    let loaded = load(&saved);
    assert_eq!(loaded.shape, ShapeType::Heart);
    assert!((loaded.threshold as i64 - 730_000).abs() <= 1);
    assert_eq!(loaded, config);
}

#[test]
fn config_round_trip_keeps_hexagon() {
    let config = Config { shape: ShapeType::Hexagon, threshold: 1_000_000 };
    let saved = save(&config);
    assert_eq!(saved, "shape=hexagon\nthreshold=1\n");
    assert_eq!(load(&saved), config);
}

#[test]
fn malformed_threshold_leaves_the_default() {
    let config = load("threshold=notanumber");
    assert_eq!(config.threshold, 0);
    assert_eq!(config, Config::default());
    let config = load("shape=heart\nthreshold=notanumber\n");
    assert_eq!(config, Config { shape: ShapeType::Heart, threshold: 0 });
}

#[test]
fn malformed_threshold_does_not_undo_an_earlier_one() {
    let config = load("threshold=0.25\nthreshold=oops\n");
    assert_eq!(config.threshold, 250_000);
    let config = load("threshold=0.25\nthreshold=oops\nthreshold=0.5");
    assert_eq!(config.threshold, 500_000);
}

#[test]
fn missing_or_empty_content_gives_the_default() {
    assert_eq!(load(""), Config::default());
    assert_eq!(load("\n\n\n"), Config::default());
    assert_eq!(load("nothing to see"), Config::default());
}

#[test]
fn threshold_is_clamped_on_load() {
    assert_eq!(load("threshold=1.5").threshold, 1_000_000);
    assert_eq!(load("threshold=-0.5").threshold, 0);
    assert_eq!(load("threshold=1e9").threshold, 1_000_000);
    assert_eq!(load("threshold=0.1").threshold, 100_000);
}

#[test]
fn clamp_threshold_moves_to_the_nearer_end() {
    assert_eq!(clamp_threshold(i64::MIN), 0);
    assert_eq!(clamp_threshold(-1), 0);
    assert_eq!(clamp_threshold(0), 0);
    assert_eq!(clamp_threshold(730_000), 730_000);
    assert_eq!(clamp_threshold(1_000_000), 1_000_000);
    assert_eq!(clamp_threshold(1_000_001), 1_000_000);
    assert_eq!(clamp_threshold(i64::MAX), 1_000_000);
    assert_eq!(Config::new(ShapeType::Heart, 2_000_000), Config { shape: ShapeType::Heart, threshold: 1_000_000 });
    assert!(!Config { shape: ShapeType::Heart, threshold: 1_000_001 }.is_valid());
}

#[test]
fn shape_is_heart_only_for_the_word_heart() {
    assert_eq!(load("shape=heart").shape, ShapeType::Heart);
    assert_eq!(load("shape=hexagon").shape, ShapeType::Hexagon);
    assert_eq!(load("shape=Heart").shape, ShapeType::Hexagon);
    assert_eq!(load("shape=hearts").shape, ShapeType::Hexagon);
    assert_eq!(load("shape=").shape, ShapeType::Hexagon);
    assert_eq!(load("shape=heart\nshape=circle").shape, ShapeType::Hexagon);
    assert_eq!(load("shape=circle\nshape=heart").shape, ShapeType::Heart);
}

#[test]
fn keys_and_values_are_trimmed() {
    let config = load("  shape \t=  heart  \r\n\tthreshold = 0.5 \r\n");
    assert_eq!(config, Config { shape: ShapeType::Heart, threshold: 500_000 });
    let config = load("\u{a0}shape\u{3000}=\u{2003}heart\u{85}");
    assert_eq!(config.shape, ShapeType::Heart);
}

#[test]
fn lines_without_exactly_one_equals_sign_are_skipped() {
    assert_eq!(load("shape=heart=\nthreshold==0.5"), Config::default());
    assert_eq!(load("shape heart\nthreshold 0.5"), Config::default());
    assert_eq!(load("=shape=heart"), Config::default());
}

#[test]
fn unknown_keys_are_skipped() {
    assert_eq!(load("Shape=heart\nTHRESHOLD=0.5\ncolour=red\n=heart"), Config::default());
}

#[test]
fn scan_lists_every_threshold_value_in_order() {
    let draft = Draft::scan(&chars("threshold= a \nshape=heart\nthreshold=\nother=1\nthreshold=0.3"));
    assert_eq!(draft.shape, ShapeType::Heart);
    let values: Vec<String> = draft.thresholds.iter().map(|t| text(t)).collect();
    assert_eq!(values, vec!["a".to_string(), "".to_string(), "0.3".to_string()]);
}

#[test]
fn parse_line_tells_the_entries_apart() {
    assert!(matches!(parse_line(&chars("shape=heart")), Entry::Shape(ShapeType::Heart)));
    assert!(matches!(parse_line(&chars("shape=square")), Entry::Shape(ShapeType::Hexagon)));
    assert!(matches!(parse_line(&chars("")), Entry::Other));
    assert!(matches!(parse_line(&chars("=")), Entry::Other));
    assert!(matches!(parse_line(&chars("a=b=c")), Entry::Other));
    match parse_line(&chars(" threshold =\t0.73 ")) {
        Entry::Threshold(value) => assert_eq!(text(&value), "0.73"),
        _ => panic!("not a threshold entry"),
    }
}

#[test]
fn load_takes_the_last_reading_that_is_a_number() {
    let none: Vec<Option<i64>> = Vec::new();
    assert_eq!(Config::load(ShapeType::Heart, &none), Config { shape: ShapeType::Heart, threshold: 0 });
    assert_eq!(Config::load(ShapeType::Hexagon, &vec![None, None]).threshold, 0);
    assert_eq!(Config::load(ShapeType::Hexagon, &vec![Some(5), None]).threshold, 5);
    assert_eq!(Config::load(ShapeType::Hexagon, &vec![Some(5), Some(7)]).threshold, 7);
    assert_eq!(Config::load(ShapeType::Hexagon, &vec![Some(5), Some(-7)]).threshold, 0);
    assert_eq!(Config::load(ShapeType::Hexagon, &vec![None, Some(9_000_000), None]).threshold, 1_000_000);
}

#[test]
fn save_writes_a_shape_line_and_a_threshold_line() {
    let config = Config { shape: ShapeType::Hexagon, threshold: 0 };
    assert_eq!(text(&config.save(&chars("0"))), "shape=hexagon\nthreshold=0\n");
    let config = Config { shape: ShapeType::Heart, threshold: 250_000 };
    assert_eq!(text(&config.save(&chars("0.25"))), "shape=heart\nthreshold=0.25\n");
    assert_eq!(text(&config.save(&chars(""))), "shape=heart\nthreshold=\n");
}

#[test]
fn split_lines_cuts_at_every_line_feed() {
    let lines: Vec<String> = split_lines(&chars("a\nbc\n\nd")).iter().map(|l| text(l)).collect();
    assert_eq!(lines, vec!["a", "bc", "", "d"]);
    let lines: Vec<String> = split_lines(&chars("")).iter().map(|l| text(l)).collect();
    assert_eq!(lines, vec![""]);
    let lines: Vec<String> = split_lines(&chars("x\n")).iter().map(|l| text(l)).collect();
    assert_eq!(lines, vec!["x", ""]);
    let lines: Vec<String> = split_lines(&chars("\r\n")).iter().map(|l| text(l)).collect();
    assert_eq!(lines, vec!["\r", ""]);
}

#[test]
fn trim_agrees_with_the_standard_library() {
    let samples = ["", " ", "a", "  a b  ", "\t\r\nx\u{a0}", "\u{2028}\u{2029}y\u{202f}\u{205f}", "\u{1680}z\u{200a}", "\u{200b}w\u{feff}"];
    for s in samples {
        assert_eq!(text(&trim(&chars(s))), s.trim());
    }
}

#[test]
fn whitespace_agrees_with_the_standard_library() {
    let mut code: u32 = 0;
    while code <= 0x10ffff {
        if let Some(c) = char::from_u32(code) {
            assert_eq!(is_whitespace(c), c.is_whitespace());
        }
        code += 1;
    }
}
