//! The command line, read into plain values, and what it asks for.
use vstd::prelude::*;

use crate::config::resource::Resource;
use crate::text::has_prefix;
use crate::config::scaled_annotation::{
    opt_view, Position, ScaledAnnotation, ScaledAnnotationParser,
};

verus! {

/// The texts given on the command line. `caption` is another name for
/// `bottom`, and wins where both are given.
#[derive(Clone, Debug)]
pub struct Annotations {
    pub caption: Option<String>,
    pub top: Option<String>,
    pub middle: Option<String>,
    pub bottom: Option<String>,
}

/// The output format flags.
#[derive(Clone, Copy, Debug)]
pub struct Formats {
    pub jpg: bool,
    pub png: bool,
}

/// A subcommand in place of annotating a picture.
#[derive(Clone, Debug)]
pub enum Command {
    /// List the system fonts, or those whose name holds `query`.
    Fonts { query: Option<String> },
}

/// The format of the picture that is written.
#[derive(Clone, Copy, Debug, PartialEq, Eq, Structural)]
pub enum Format {
    Jpg,
    Png,
}

/// The command line. The scale that applies to all annotations is a decimal
/// fraction and is not held here: annotations without a scale of their own
/// are marked as drawn at it.
#[derive(Clone, Debug)]
pub struct Args {
    /// The image: a system file path or a URL.
    pub image: Option<String>,
    /// Where the annotated image is written.
    pub output: Option<String>,
    /// The font to use in place of the default.
    pub font: Option<String>,
    pub annotations: Annotations,
    pub format: Formats,
    pub rightholder_protection: bool,
    pub command: Option<Command>,
    /// Save intermediate artifacts.
    pub debug: bool,
}

/// Everything needed to annotate one picture.
#[derive(Clone, Debug)]
pub struct Annotate {
    pub base_image: Resource,
    pub annotations: Vec<ScaledAnnotation>,
    pub output_path: String,
    pub output_format: Format,
    pub font_name: Option<String>,
    pub debug: bool,
}

/// The refusal to annotate anything under the rightsholder protection mode.
#[derive(Clone, Copy, Debug)]
pub struct RightsholderProtection;

impl RightsholderProtection {
    /// The notice shown when the mode is on.
    pub fn notice(&self) -> (r: String)
        ensures
            r@ == notice_text(),
    {
        String::from_str(
            "Rightsholder Protections Active\n\nYour IP has been reported. Please turn off your PC and walk away.\nTrust and Safety personnel have been dispatched to your location.\n\nHave a nice day.",
        )
    }
}

/// The text of the rightsholder protection notice.
pub open spec fn notice_text() -> Seq<char> {
    "Rightsholder Protections Active\n\nYour IP has been reported. Please turn off your PC and walk away.\nTrust and Safety personnel have been dispatched to your location.\n\nHave a nice day."@
}

/// The annotation texts that the command line asks for, each with its place,
/// in the order they are drawn: top, middle, bottom.
pub open spec fn requested_annotations(a: Annotations) -> Seq<(Position, Seq<char>)> {
    entry(Position::Top, a.top) + entry(Position::Middle, a.middle) + entry(
        Position::Bottom,
        match a.caption {
            Some(c) => Some(c),
            None => a.bottom,
        },
    )
}

/// No annotation, or the one written `o`, at `p`.
pub open spec fn entry(p: Position, o: Option<String>) -> Seq<(Position, Seq<char>)> {
    match o {
        Some(t) => seq![(p, t@)],
        None => seq![],
    }
}

/// `v` holds what each of `requested` becomes, in order.
pub open spec fn reads(v: Seq<ScaledAnnotation>, requested: Seq<(Position, Seq<char>)>) -> bool {
    &&& v.len() == requested.len()
    &&& forall|i: int|
        0 <= i < v.len() ==> #[trigger] v[i].is_read_from(requested[i].0, requested[i].1)
}

/// The format that the flags select: PNG where asked for, JPEG otherwise.
pub open spec fn selected_format(f: Formats) -> Format {
    if f.png {
        Format::Png
    } else {
        Format::Jpg
    }
}

/// The name given to an annotated picture: the stem of the input's file name
/// with `-annotated` and the format's extension, or `annotated` and the
/// extension where the input path has no file name.
pub open spec fn annotated_file_name(stem: Option<Seq<char>>, format: Format) -> Seq<char> {
    match stem {
        Some(s) => s + match format {
            Format::Jpg => "-annotated.jpg"@,
            Format::Png => "-annotated.png"@,
        },
        None => match format {
            Format::Jpg => "annotated.jpg"@,
            Format::Png => "annotated.png"@,
        },
    }
}

/// `a` is what annotating a picture needs, as `args` asks for it: the image,
/// the annotations read from the texts, the output path given or else one
/// made from the image's file stem, the selected format, the font and the
/// debug flag.
pub open spec fn is_annotate_for(args: Args, a: Annotate) -> bool {
    &&& a.base_image@ == args.image.unwrap()@
    &&& reads(a.annotations@, requested_annotations(args.annotations))
    &&& a.output_path@ == match args.output {
        Some(o) => o@,
        None => annotated_file_name(
            file_stem_of(args.image.unwrap()@),
            selected_format(args.format),
        ),
    }
    &&& a.output_format == selected_format(args.format)
    &&& opt_view(a.font_name) == opt_view(args.font)
    &&& a.debug == args.debug
}

/// The stem of the file name of `path`, as `std::path::Path::file_stem`
/// finds it under the path rules of the platform the library is built for.
pub uninterp spec fn file_stem_of(path: Seq<char>) -> Option<Seq<char>>;

/// `s` holds no `/`, which separates path components on every platform.
pub open spec fn holds_no_slash(s: Seq<char>) -> bool {
    forall|i: int| 0 <= i < s.len() ==> #[trigger] s[i] != '/'
}

/// `s` ends with `suffix`.
pub open spec fn ends_with(s: Seq<char>, suffix: Seq<char>) -> bool {
    suffix.len() <= s.len() && s.subrange(s.len() - suffix.len(), s.len() as int) =~= suffix
}

/// The end of every name given to an annotated picture.
pub open spec fn annotated_suffix(format: Format) -> Seq<char> {
    match format {
        Format::Jpg => "annotated.jpg"@,
        Format::Png => "annotated.png"@,
    }
}

/// Calls `std::path::Path::file_stem` on `path`. Its result is named
/// [`file_stem_of`]: it depends on the path alone, and, being part of the
/// final component of the path, holds no `/`; nothing more is claimed of it.
#[verifier::external_body]
fn path_file_stem(path: &str) -> (r: Option<String>)
    ensures
        opt_view(r) == file_stem_of(path@),
        match r {
            Some(stem) => holds_no_slash(stem@),
            None => true,
        },
{
    match std::path::Path::new(path).file_stem() {
        Some(stem) => Some(stem.to_string_lossy().into_owned()),
        None => None,
    }
}

/// The name given to an annotated picture whose input has the file stem
/// `stem`, if any.
pub fn annotated_name(stem: Option<&str>, format: Format) -> (r: String)
    ensures
        r@ == annotated_file_name(
            match stem {
                Some(s) => Some(s@),
                None => None,
            },
            format,
        ),
{
    match stem {
        Some(s) => {
            let suffix = match format {
                Format::Jpg => "-annotated.jpg",
                Format::Png => "-annotated.png",
            };
            String::from_str(s).concat(suffix)
        },
        None => match format {
            Format::Jpg => String::from_str("annotated.jpg"),
            Format::Png => String::from_str("annotated.png"),
        },
    }
}

/// The default output path for the image at `path`: foo.jpg becomes
/// foo-annotated.jpg. It names no directory: it holds no `/`, and ends with
/// `annotated.` and the format's extension.
pub fn create_output_file_path(path: &str, format: Format) -> (r: String)
    ensures
        r@ == annotated_file_name(file_stem_of(path@), format),
        holds_no_slash(r@),
        ends_with(r@, annotated_suffix(format)),
        file_stem_of(path@) matches Some(st) ==> has_prefix(r@, st) && r@.len() == st.len() + 14,
{
    let stem = path_file_stem(path);
    proof {
        reveal_strlit("-annotated.jpg");
        reveal_strlit("-annotated.png");
        reveal_strlit("annotated.jpg");
        reveal_strlit("annotated.png");
    }
    let r = match stem {
        Some(s) => annotated_name(Some(s.as_str()), format),
        None => annotated_name(None, format),
    };
    proof {
        if let Some(st) = file_stem_of(path@) {
            law_annotated_name_keeps_stem(st, format);
        }
        let suffix = annotated_suffix(format);
        assert(r@.subrange(r@.len() - suffix.len(), r@.len() as int) =~= suffix);
    }
    r
}

fn clone_opt(o: &Option<String>) -> (r: Option<String>)
    ensures
        r == *o,
{
    match o {
        Some(t) => Some(t.clone()),
        None => None,
    }
}

impl Args {
    /// The output format that the flags select.
    pub fn format(&self) -> (r: Format)
        ensures
            r == selected_format(self.format),
    {
        if self.format.png {
            Format::Png
        } else {
            Format::Jpg
        }
    }

    /// Reads the annotation texts of the command line, in the order top,
    /// middle, bottom; the caption stands for the bottom text where given.
    pub fn annotations(&self) -> (r: Vec<ScaledAnnotation>)
        ensures
            reads(r@, requested_annotations(self.annotations)),
    {
        let parser = ScaledAnnotationParser::new();
        let mut results: Vec<ScaledAnnotation> = Vec::new();
        let ghost a = self.annotations;
        if let Some(top) = &self.annotations.top {
            results.push(parser.top(top.as_str()));
        }
        assert(reads(results@, entry(Position::Top, a.top)));
        if let Some(middle) = &self.annotations.middle {
            results.push(parser.middle(middle.as_str()));
        }
        assert(reads(results@, entry(Position::Top, a.top) + entry(Position::Middle, a.middle)));
        let bottom = match &self.annotations.caption {
            Some(c) => Some(c),
            None => match &self.annotations.bottom {
                Some(b) => Some(b),
                None => None,
            },
        };
        if let Some(bottom) = bottom {
            results.push(parser.bottom(bottom.as_str()));
        }
        results
    }

    /// Gathers what annotating a picture needs. Under the rightsholder
    /// protection mode nothing is annotated.
    pub fn build_annotate_options(&self) -> (r: Result<Annotate, RightsholderProtection>)
        requires
            self.command is None,
            !self.rightholder_protection ==> self.image is Some,
        ensures
            r is Err <==> self.rightholder_protection,
            r matches Ok(a) ==> is_annotate_for(*self, a),
    {
        if self.rightholder_protection {
            return Err(RightsholderProtection);
        }
        let image = match &self.image {
            Some(i) => i,
            None => {
                return Err(RightsholderProtection);
            },
        };
        let output_format = self.format();
        let output_path = match &self.output {
            Some(o) => o.clone(),
            None => create_output_file_path(image.as_str(), output_format),
        };
        Ok(
            Annotate {
                base_image: Resource::new(image.clone()),
                annotations: self.annotations(),
                output_path,
                output_format,
                font_name: clone_opt(&self.font),
                debug: self.debug,
            },
        )
    }
}

/// One if the text `o` is given, zero otherwise.
pub open spec fn given(o: Option<String>) -> int {
    if o is Some {
        1
    } else {
        0
    }
}

/// The annotations of a command line: one for the top text if given, then
/// one for the middle text if given, then one at the bottom read from the
/// caption if given, or else from the bottom text if given. Each text is
/// read on its own, whatever the others are; the caption stands for the
/// bottom text and wins over it.
pub proof fn law_annotations_of_command_line(v: Seq<ScaledAnnotation>, a: Annotations)
    requires
        reads(v, requested_annotations(a)),
    ensures
        v.len() == given(a.top) + given(a.middle) + (if a.caption is Some || a.bottom is Some {
            1int
        } else {
            0int
        }),
        a.top matches Some(t) ==> v[0].is_read_from(Position::Top, t@),
        a.middle matches Some(m) ==> v[given(a.top)].is_read_from(Position::Middle, m@),
        a.caption matches Some(c) ==> v[v.len() - 1].is_read_from(Position::Bottom, c@),
        a.caption is None ==> (a.bottom matches Some(b) ==> v[v.len() - 1].is_read_from(
            Position::Bottom,
            b@,
        )),
{
    let r = requested_annotations(a);
    if let Some(t) = a.top {
        assert(r[0] == (Position::Top, t@));
        assert(v[0].is_read_from(r[0].0, r[0].1));
    }
    if let Some(m) = a.middle {
        assert(r[given(a.top)] == (Position::Middle, m@));
        assert(v[given(a.top)].is_read_from(r[given(a.top)].0, r[given(a.top)].1));
    }
    if let Some(c) = a.caption {
        assert(r[r.len() - 1] == (Position::Bottom, c@));
        assert(v[v.len() - 1].is_read_from(r[r.len() - 1].0, r[r.len() - 1].1));
    } else if let Some(b) = a.bottom {
        assert(r[r.len() - 1] == (Position::Bottom, b@));
        assert(v[v.len() - 1].is_read_from(r[r.len() - 1].0, r[r.len() - 1].1));
    }
}

/// The name given to an annotated picture keeps the whole file stem: it is
/// the stem followed by `-annotated.` and the format's extension, fourteen
/// characters in all; with no stem it is `annotated.` and the extension.
pub proof fn law_annotated_name_keeps_stem(stem: Seq<char>, format: Format)
    ensures
        has_prefix(annotated_file_name(Some(stem), format), stem),
        annotated_file_name(Some(stem), format).len() == stem.len() + 14,
        ends_with(annotated_file_name(Some(stem), format), seq!['-'] + annotated_suffix(format)),
        annotated_file_name(None, format) == annotated_suffix(format),
{
    reveal_strlit("-annotated.jpg");
    reveal_strlit("-annotated.png");
    reveal_strlit("annotated.jpg");
    reveal_strlit("annotated.png");
    let r = annotated_file_name(Some(stem), format);
    assert(r.subrange(0, stem.len() as int) =~= stem);
    assert(r.subrange(r.len() - 14, r.len() as int) =~= seq!['-'] + annotated_suffix(format));
}

} // verus!
