use annatar::chars::{decimal_digit, white_space};
use annatar::config::scale_grammar::scale_captures_exec;
use annatar::{parse_scaled_annotation, Position, ScaleMultiplier, ScaledAnnotation, ScaledAnnotationParser};
use regex::Regex;

fn multiplier(scale: ScaleMultiplier, global: f32) -> f32 {
    match scale {
        ScaleMultiplier::InBand(t) => t.parse().unwrap(),
        ScaleMultiplier::Global => global,
    }
}

#[test]
fn in_band_scaling_works() {
    let parser = ScaledAnnotationParser::new();
    let caption = "\\2.0 Hello, world!";
    let ScaledAnnotation {
        scale_multiplier,
        annotation,
    } = parser.top(caption);
    let scale_multiplier = multiplier(scale_multiplier, 1.0);

    assert_eq!(2.0, scale_multiplier);
    assert_eq!("Hello, world!", annotation.text);
}

#[test]
fn escaped_leading_slashes_work() {
    let parser = ScaledAnnotationParser::new();
    let caption = "\\\\ESCAPED SLASHES!\\";

    let ScaledAnnotation {
        scale_multiplier,
        annotation,
    } = parser.top(caption);
    let scale_multiplier = multiplier(scale_multiplier, 1.0);

    assert_eq!(1.0, scale_multiplier);
    assert_eq!("\\ESCAPED SLASHES!\\", annotation.text);
}

fn parts(s: &str) -> (Option<String>, String) {
    parse_scaled_annotation(s)
}

#[test]
fn plain_text_is_kept() {
    assert_eq!(parts("Hello"), (None, "Hello".to_string()));
    assert_eq!(parts(""), (None, String::new()));
    assert_eq!(parts("2.0 text"), (None, "2.0 text".to_string()));
}

#[test]
fn white_space_after_the_scale_is_dropped() {
    assert_eq!(parts("\\1.3    this one is bigger!"), (Some("1.3".to_string()), "this one is bigger!".to_string()));
    assert_eq!(parts("\\12\t\u{3000} x y "), (Some("12".to_string()), "x y ".to_string()));
}

#[test]
fn scale_without_space_is_no_scale() {
    assert_eq!(parts("\\2x"), (None, "\\2x".to_string()));
    assert_eq!(parts("\\2.x text"), (None, "\\2.x text".to_string()));
    assert_eq!(parts("\\ text"), (None, "\\ text".to_string()));
}

#[test]
fn scale_only_at_beginning() {
    assert_eq!(parts("\\x \\2 hi"), (None, "\\x \\2 hi".to_string()));
    assert_eq!(parts("\\3 a \\4 b"), (Some("3".to_string()), "a \\4 b".to_string()));
}

#[test]
fn caption_ends_at_line_feed() {
    assert_eq!(parts("\\2 first\nsecond"), (Some("2".to_string()), "first".to_string()));
    assert_eq!(parts("\\2  "), (Some("2".to_string()), " ".to_string()));
    assert_eq!(parts("\\2 \n"), (None, "\\2 \n".to_string()));
    assert_eq!(parts("\\2 x\n\n"), (Some("2".to_string()), "x".to_string()));
    assert_eq!(parts("\\2 \n \n"), (Some("2".to_string()), " ".to_string()));
}

#[test]
fn scale_digits_are_ascii() {
    assert_eq!(parts("\\\u{663} x"), (None, "\\\u{663} x".to_string()));
}

#[test]
fn positions_follow_the_method() {
    let parser = ScaledAnnotationParser::new();
    assert_eq!(parser.top("a").annotation.position, Position::Top);
    assert_eq!(parser.middle("a").annotation.position, Position::Middle);
    assert_eq!(parser.bottom("a").annotation.position, Position::Bottom);
    let s = parser.bottom("\\0.5 small");
    assert_eq!(multiplier(s.scale_multiplier, 3.0), 0.5);
    assert_eq!(s.annotation.text, "small");
}

#[test]
fn character_classes_agree_with_regex() {
    let space = Regex::new(r"^\s$").unwrap();
    let mut buf = [0u8; 4];
    for c in (0u32..=0x10FFFF).filter_map(char::from_u32) {
        let s: &str = c.encode_utf8(&mut buf);
        assert_eq!(decimal_digit(c), c.is_ascii_digit(), "digit {:?}", c);
        assert_eq!(white_space(c), space.is_match(s), "space {:?}", c);
        assert_eq!(white_space(c), c.is_whitespace(), "space {:?}", c);
    }
}

fn regex_captures(pattern: &Regex, s: &str) -> Option<(String, String)> {
    pattern.captures(s).map(|c| {
        (
            c.name("scale").unwrap().as_str().to_string(),
            c.name("caption").unwrap().as_str().to_string(),
        )
    })
}

#[test]
fn captures_agree_with_regex() {
    let pattern = Regex::new(r#"^\\(?P<scale>[0-9]+(\.[0-9]+)?)\s+(?P<caption>.+)"#).unwrap();
    let alphabet = ['\\', '1', '.', ' ', '\n', 'a', '\u{663}', '\u{a0}'];
    let mut cases: Vec<String> = vec![String::new()];
    let mut frontier: Vec<String> = vec![String::new()];
    for _ in 0..6 {
        let mut next = Vec::new();
        for s in &frontier {
            for c in alphabet {
                let mut t = s.clone();
                t.push(c);
                next.push(t);
            }
        }
        cases.extend(next.iter().cloned());
        frontier = next;
    }
    for s in &cases {
        let got = scale_captures_exec(s);
        assert_eq!(got, regex_captures(&pattern, s), "input {:?}", s);
        if let Some((scale, _)) = got {
            assert!(scale.parse::<f32>().is_ok(), "scale {:?}", scale);
        }
    }
}
