use annatar::{
    create_output_file_path, Annotations, Args, Command, Format, Formats, Position, ScaleMultiplier,
};

fn args(image: Option<&str>) -> Args {
    Args {
        image: image.map(String::from),
        output: None,
        font: None,
        annotations: Annotations { caption: None, top: None, middle: None, bottom: None },
        format: Formats { jpg: false, png: false },
        rightholder_protection: false,
        command: None,
        debug: false,
    }
}

#[test]
fn output_path_follows_image_name() {
    assert_eq!(create_output_file_path("foo.jpg", Format::Jpg), "foo-annotated.jpg");
    assert_eq!(create_output_file_path("pics/foo.jpg", Format::Png), "foo-annotated.png");
    assert_eq!(create_output_file_path("a/b.tar.gz", Format::Jpg), "b.tar-annotated.jpg");
    assert_eq!(create_output_file_path(".hidden", Format::Jpg), ".hidden-annotated.jpg");
    assert_eq!(create_output_file_path("/", Format::Jpg), "annotated.jpg");
    assert_eq!(create_output_file_path("", Format::Png), "annotated.png");
    assert_eq!(create_output_file_path("dir/..", Format::Png), "annotated.png");
    for d in ["", "a/", "/x/y/", "./"] {
        let r = create_output_file_path(&format!("{}cat.jpg", d), Format::Jpg);
        assert_eq!(r, "cat-annotated.jpg");
        assert!(!r.contains('/'));
    }
}

#[test]
fn png_flag_selects_png() {
    let mut a = args(Some("x.jpg"));
    assert_eq!(a.format(), Format::Jpg);
    a.format.png = true;
    assert_eq!(a.format(), Format::Png);
    a.format = Formats { jpg: true, png: false };
    assert_eq!(a.format(), Format::Jpg);
}

#[test]
fn annotations_come_top_middle_bottom() {
    let mut a = args(Some("x.jpg"));
    a.annotations = Annotations {
        caption: None,
        top: Some("\\2 up".to_string()),
        middle: Some("mid".to_string()),
        bottom: Some("down".to_string()),
    };
    let v = a.annotations();
    assert_eq!(v.len(), 3);
    assert_eq!(v[0].annotation.position, Position::Top);
    assert_eq!(v[0].annotation.text, "up");
    assert!(matches!(&v[0].scale_multiplier, ScaleMultiplier::InBand(t) if t == "2"));
    assert_eq!(v[1].annotation.position, Position::Middle);
    assert_eq!(v[1].annotation.text, "mid");
    assert!(matches!(v[1].scale_multiplier, ScaleMultiplier::Global));
    assert_eq!(v[2].annotation.position, Position::Bottom);
    assert_eq!(v[2].annotation.text, "down");
}

#[test]
fn caption_wins_over_bottom() {
    let mut a = args(Some("x.jpg"));
    a.annotations.caption = Some("cap".to_string());
    a.annotations.bottom = Some("bot".to_string());
    let v = a.annotations();
    assert_eq!(v.len(), 1);
    assert_eq!(v[0].annotation.position, Position::Bottom);
    assert_eq!(v[0].annotation.text, "cap");
    a.annotations.caption = None;
    a.annotations.middle = Some("m".to_string());
    let v = a.annotations();
    assert_eq!(v.len(), 2);
    assert_eq!(v[1].annotation.text, "bot");
}

#[test]
fn annotate_options_default_output() {
    let mut a = args(Some("https://example.com/doge.png"));
    a.format.png = true;
    a.font = Some("Comic".to_string());
    a.debug = true;
    a.annotations.top = Some("SUCH BIG".to_string());
    let o = a.build_annotate_options().unwrap();
    assert_eq!(o.base_image.as_str(), "https://example.com/doge.png");
    assert_eq!(o.output_path, "doge-annotated.png");
    assert_eq!(o.output_format, Format::Png);
    assert_eq!(o.font_name.as_deref(), Some("Comic"));
    assert!(o.debug);
    assert_eq!(o.annotations.len(), 1);
}

#[test]
fn annotate_options_given_output() {
    let mut a = args(Some("foo.jpg"));
    a.output = Some("out/bar.jpg".to_string());
    let o = a.build_annotate_options().unwrap();
    assert_eq!(o.output_path, "out/bar.jpg");
    assert_eq!(o.output_format, Format::Jpg);
    assert_eq!(o.font_name, None);
}

#[test]
fn rightsholder_protection_refuses() {
    let mut a = args(Some("foo.jpg"));
    a.rightholder_protection = true;
    let e = a.build_annotate_options().unwrap_err();
    assert_eq!(
        e.notice(),
        "Rightsholder Protections Active\n\nYour IP has been reported. Please turn off your PC and walk away.\nTrust and Safety personnel have been dispatched to your location.\n\nHave a nice day."
    );
    let mut b = args(None);
    b.rightholder_protection = true;
    assert!(b.build_annotate_options().is_err());
    let _ = Command::Fonts { query: None };
}
