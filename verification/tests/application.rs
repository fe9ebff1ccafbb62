use annatar::{
    default_font_name, dispatch, list_fonts, query_fonts, Annotations, App, Args, Command,
    Formats, Task,
};

fn names(v: &[&str]) -> Vec<String> {
    v.iter().map(|s| s.to_string()).collect()
}

#[test]
fn listing_is_sorted_without_repeats() {
    let input = names(&["Impact", "Arial", "Zapfino", "Arial", "Comic", "Impact", "arial", "Ärial"]);
    let mut expected = input.clone();
    expected.sort();
    expected.dedup();
    assert_eq!(list_fonts(&input), expected);
    assert_eq!(list_fonts(&expected), expected);
    assert_eq!(list_fonts(&Vec::new()), Vec::<String>::new());
}

#[test]
fn query_ignores_case() {
    let input = names(&["Impact", "Arial-Bold", "Zapfino", "Arial", "Comic", "arial", "Arial"]);
    assert_eq!(query_fonts(&input, "ari"), names(&["Arial", "Arial-Bold", "arial"]));
    assert_eq!(query_fonts(&input, "IMP"), names(&["Impact"]));
    assert_eq!(query_fonts(&input, "nothing"), Vec::<String>::new());
    assert_eq!(query_fonts(&input, ""), list_fonts(&input));
    assert_eq!(query_fonts(&input, "ARI"), query_fonts(&input, "ari"));
    assert_eq!(query_fonts(&input, "aRi"), query_fonts(&input, "ari"));
}

#[test]
fn default_font_comes_from_environment() {
    assert_eq!(default_font_name(None), "Impact");
    assert_eq!(default_font_name(Some("Comic Sans")), "Comic Sans");
}

#[test]
fn fonts_subcommand_dispatches() {
    assert!(matches!(dispatch(&Command::Fonts { query: None }), Task::ListFonts));
    assert!(matches!(
        dispatch(&Command::Fonts { query: Some("ari".to_string()) }),
        Task::QueryFonts(q) if q == "ari"
    ));
}

#[test]
fn run_chooses_the_task() {
    let mut args = Args {
        image: None,
        output: None,
        font: None,
        annotations: Annotations { caption: Some("hi".to_string()), top: None, middle: None, bottom: None },
        format: Formats { jpg: false, png: false },
        rightholder_protection: false,
        command: Some(Command::Fonts { query: None }),
        debug: false,
    };
    assert!(matches!(App.run(&args), Ok(Task::ListFonts)));
    args.command = None;
    args.image = Some("pic.png".to_string());
    match App.run(&args) {
        Ok(Task::Annotate(a)) => {
            assert_eq!(a.output_path, "pic-annotated.jpg");
            assert_eq!(a.annotations[0].annotation.text, "hi");
        }
        _ => panic!("expected an annotation task"),
    }
    args.rightholder_protection = true;
    assert!(App.run(&args).is_err());
}
