use annatar::options::{
    create_output_file_path, output_file_name, read_command, BuildOptionsErrorKind, CommandLine,
    OptionsBuilder, OutputFormat, ScaleReading,
};
use annatar::Position;

fn command_line(image: &str) -> CommandLine {
    CommandLine {
        scale: ScaleReading::NotGiven,
        image: image.to_string(),
        caption: None,
        bottom: None,
        top: None,
        middle: None,
        output: None,
        font: None,
        debug: false,
        encoding: None,
        jpg: false,
        png: false,
    }
}

#[test]
fn output_name_cuts_last_extension() {
    assert_eq!(output_file_name("foo.jpg", OutputFormat::Jpg), "foo.ann.jpg");
    assert_eq!(output_file_name("foo.bar.jpg", OutputFormat::Png), "foo.bar.ann.png");
    assert_eq!(output_file_name("noext", OutputFormat::Jpg), "noext.ann.jpg");
    assert_eq!(output_file_name(".bashrc", OutputFormat::Jpg), ".ann.jpg");
    assert_eq!(create_output_file_path("pics/x.png", OutputFormat::Jpg), "pics/x.ann.jpg");
    assert_eq!(create_output_file_path("pics/cat.jpg", OutputFormat::Jpg), "pics/cat.ann.jpg");
    assert_eq!(create_output_file_path("cat.jpg", OutputFormat::Png), "cat.ann.png");
}

#[test]
fn build_refuses_path_without_file_name() {
    let mut b = OptionsBuilder::new("/fonts/Impact.ttf".to_string());
    b.base_image = Some("/".to_string());
    let e = b.build().unwrap_err();
    assert_eq!(e.kind(), BuildOptionsErrorKind::ImagePath);
    assert_eq!(e.description(), "The provided image path does not appear to have a filename");
}

#[test]
fn build_keeps_given_output() {
    let mut b = OptionsBuilder::new("/fonts/Impact.ttf".to_string());
    b.base_image = Some("in/pic.jpeg".to_string());
    let o = b.build().unwrap();
    assert_eq!(o.output_path, "in/pic.ann.jpg");
    assert_eq!(o.font_path, "/fonts/Impact.ttf");
    let mut b = OptionsBuilder::new("f".to_string());
    b.base_image = Some("in/pic.jpeg".to_string());
    b.output_path = Some("there.png".to_string());
    b.output_format = OutputFormat::Png;
    let o = b.build().unwrap();
    assert_eq!(o.output_path, "there.png");
    assert_eq!(o.output_format, OutputFormat::Png);
}

#[test]
fn command_line_orders_annotations_and_format() {
    let mut c = command_line("pic.jpg");
    c.caption = Some("c".to_string());
    c.top = Some("t".to_string());
    c.middle = Some("m".to_string());
    c.bottom = Some("b".to_string());
    c.encoding = Some("PNG".to_string());
    c.font = Some("my.ttf".to_string());
    let o = read_command(&c, "default.ttf".to_string()).unwrap();
    let got: Vec<(Position, &str)> = o.annotations.iter().map(|a| (a.position, a.text.as_str())).collect();
    assert_eq!(
        got,
        vec![(Position::Bottom, "c"), (Position::Top, "t"), (Position::Middle, "m"), (Position::Bottom, "b")]
    );
    assert_eq!(o.output_format, OutputFormat::Png);
    assert_eq!(o.output_path, "pic.ann.png");
    assert_eq!(o.font_path, "my.ttf");
}

#[test]
fn command_line_format_choices() {
    let mut c = command_line("pic.jpg");
    assert_eq!(read_command(&c, String::new()).unwrap().output_format, OutputFormat::Jpg);
    c.encoding = Some("png".to_string());
    assert_eq!(read_command(&c, String::new()).unwrap().output_format, OutputFormat::Png);
    c.encoding = Some("Png".to_string());
    assert_eq!(read_command(&c, String::new()).unwrap().output_format, OutputFormat::Jpg);
    c.png = true;
    assert_eq!(read_command(&c, String::new()).unwrap().output_format, OutputFormat::Png);
    c.image = "dir/..".to_string();
    assert_eq!(read_command(&c, String::new()).unwrap_err().kind(), BuildOptionsErrorKind::ImagePath);
}

#[test]
fn command_line_refuses_bad_scale_first() {
    let mut c = command_line("/");
    c.scale = ScaleReading::NotDecimal;
    let e = read_command(&c, String::new()).unwrap_err();
    assert_eq!(e.kind(), BuildOptionsErrorKind::ScalingMultiplier);
    assert_eq!(e.description(), "Scaling multiplier must be a decimal value");
    c.scale = ScaleReading::Decimal;
    let e = read_command(&c, String::new()).unwrap_err();
    assert_eq!(e.kind(), BuildOptionsErrorKind::ImagePath);
    c.image = "pics/cat.jpg".to_string();
    assert_eq!(read_command(&c, String::new()).unwrap().output_path, "pics/cat.ann.jpg");
}
