//! Options read from a command line of image, texts, output path, encoding
//! and font path: the input image, the annotations and where and how the
//! result is written.
use vstd::prelude::*;

use crate::config::options::given;
use crate::config::scaled_annotation::{opt_view, Annotation, Position};
use crate::text::same_text;

verus! {

/// Everything needed to annotate one picture. The scale multiplier is a
/// decimal fraction and is not held here.
#[derive(Debug)]
pub struct Options {
    pub base_image: String,
    pub annotations: Vec<Annotation>,
    pub output_path: String,
    pub output_format: OutputFormat,
    pub font_path: String,
    pub debug: bool,
}

/// The format of the picture that is written.
#[derive(Clone, Copy, Debug, PartialEq, Eq, Structural)]
pub enum OutputFormat {
    Jpg,
    Png,
}

/// Options as they are gathered, before they are checked.
#[derive(Debug)]
pub struct OptionsBuilder {
    pub base_image: Option<String>,
    pub annotations: Vec<Annotation>,
    pub output_path: Option<String>,
    pub output_format: OutputFormat,
    pub font_path: String,
    pub debug: bool,
}

/// Why the options are refused.
#[derive(Clone, Copy, Debug, PartialEq, Eq, Structural)]
pub enum BuildOptionsErrorKind {
    ImagePath,
    ScalingMultiplier,
}

/// A refusal of the options, with a description for the user.
#[derive(Debug)]
pub struct BuildOptionsError {
    kind: BuildOptionsErrorKind,
    description: String,
}

/// The description of a refused image path.
pub open spec fn image_path_description() -> Seq<char> {
    "The provided image path does not appear to have a filename"@
}

/// The description of a refused scaling multiplier.
pub open spec fn scaling_multiplier_description() -> Seq<char> {
    "Scaling multiplier must be a decimal value"@
}

impl BuildOptionsError {
    pub closed spec fn spec_kind(&self) -> BuildOptionsErrorKind {
        self.kind
    }

    pub closed spec fn spec_description(&self) -> Seq<char> {
        self.description@
    }

    /// The refusal of an image path without a file name.
    pub fn image_path() -> (e: Self)
        ensures
            e.spec_kind() == BuildOptionsErrorKind::ImagePath,
            e.spec_description() == image_path_description(),
    {
        BuildOptionsError {
            kind: BuildOptionsErrorKind::ImagePath,
            description: String::from_str(
                "The provided image path does not appear to have a filename",
            ),
        }
    }

    /// The refusal of a scaling multiplier that is no decimal value.
    pub fn scaling_multiplier() -> (e: Self)
        ensures
            e.spec_kind() == BuildOptionsErrorKind::ScalingMultiplier,
            e.spec_description() == scaling_multiplier_description(),
    {
        BuildOptionsError {
            kind: BuildOptionsErrorKind::ScalingMultiplier,
            description: String::from_str("Scaling multiplier must be a decimal value"),
        }
    }

    pub fn kind(&self) -> (k: BuildOptionsErrorKind)
        ensures
            k == self.spec_kind(),
    {
        self.kind
    }

    /// The text shown to the user.
    pub fn description(&self) -> (d: &str)
        ensures
            d@ == self.spec_description(),
    {
        self.description.as_str()
    }
}

/// The final component of `path`, as `std::path::Path::file_name` finds it
/// under the path rules of the platform the library is built for.
pub uninterp spec fn file_name_of(path: Seq<char>) -> Option<Seq<char>>;

/// Calls `std::path::Path::file_name` on `path`. Its result is named
/// [`file_name_of`]: nothing more is claimed of it than that it depends on
/// the path alone.
#[verifier::external_body]
fn path_file_name(path: &str) -> (r: Option<String>)
    ensures
        opt_view(r) == file_name_of(path@),
{
    match std::path::Path::new(path).file_name() {
        Some(name) => Some(name.to_string_lossy().into_owned()),
        None => None,
    }
}

/// The index of the last point in `s`, or -1 where there is none.
pub open spec fn last_point(s: Seq<char>) -> int
    decreases s.len(),
{
    if s.len() == 0 {
        -1
    } else if s.last() == '.' {
        s.len() - 1
    } else {
        last_point(s.drop_last())
    }
}

/// The output file name for an input file named `file_name`: the image name,
/// which is the file name cut at its last point, if any, then `.ann.` and the
/// extension of the format.
pub open spec fn output_name(file_name: Seq<char>, format: OutputFormat) -> Seq<char> {
    let p = last_point(file_name);
    (if p >= 0 {
        file_name.subrange(0, p)
    } else {
        file_name
    }) + match format {
        OutputFormat::Png => ".ann.png"@,
        OutputFormat::Jpg => ".ann.jpg"@,
    }
}

proof fn lemma_last_point(s: Seq<char>)
    ensures
        -1 <= last_point(s) < s.len(),
        last_point(s) >= 0 ==> s[last_point(s)] == '.',
        forall|i: int| last_point(s) < i < s.len() ==> #[trigger] s[i] != '.',
    decreases s.len(),
{
    if s.len() > 0 && s.last() != '.' {
        lemma_last_point(s.drop_last());
        assert forall|i: int| last_point(s) < i < s.len() implies #[trigger] s[i] != '.' by {
            if i < s.len() - 1 {
                assert(s[i] == s.drop_last()[i]);
            }
        }
    }
}

/// The output file name for an input file named `file_name`.
pub fn output_file_name(file_name: &str, format: OutputFormat) -> (r: String)
    ensures
        r@ == output_name(file_name@, format),
{
    let n = file_name.unicode_len();
    let mut i: usize = n;
    assert(file_name@.subrange(0, n as int) =~= file_name@);
    while i > 0 && file_name.get_char(i - 1) != '.'
        invariant
            n == file_name@.len(),
            i <= n,
            last_point(file_name@) == last_point(file_name@.subrange(0, i as int)),
        decreases i,
    {
        assert(file_name@.subrange(0, i as int).drop_last() =~= file_name@.subrange(0, i - 1));
        i = i - 1;
    }
    proof {
        assert(file_name@.subrange(0, n as int) =~= file_name@);
    }
    let stem = if i > 0 {
        file_name.substring_char(0, i - 1)
    } else {
        file_name
    };
    let suffix = match format {
        OutputFormat::Png => ".ann.png",
        OutputFormat::Jpg => ".ann.jpg",
    };
    String::from_str(stem).concat(suffix)
}

/// `path` with its final component replaced by `name`, as
/// `std::path::Path::with_file_name` makes it under the path rules of the
/// platform the library is built for.
pub uninterp spec fn with_file_name_of(path: Seq<char>, name: Seq<char>) -> Seq<char>;

/// Calls `std::path::Path::with_file_name` on `path` and `name`. Its result
/// is named [`with_file_name_of`]: nothing more is claimed of it than that it
/// depends on the path and the name alone.
#[verifier::external_body]
fn path_with_file_name(path: &str, name: &str) -> (r: String)
    ensures
        r@ == with_file_name_of(path@, name@),
{
    std::path::Path::new(path).with_file_name(name).to_string_lossy().into_owned()
}

/// The default output path for the image at `path`, which has a file name:
/// `<image path>/<image name>.ann.<ext>`, the image's own directory with the
/// output file name.
pub open spec fn default_output_path(path: Seq<char>, format: OutputFormat) -> Seq<char> {
    with_file_name_of(path, output_name(file_name_of(path).unwrap(), format))
}

/// The default output path for the image at `input_path`, which must have a
/// file name: pics/cat.jpg becomes pics/cat.ann.jpg.
pub fn create_output_file_path(input_path: &str, output_format: OutputFormat) -> (r: String)
    requires
        file_name_of(input_path@) is Some,
    ensures
        r@ == default_output_path(input_path@, output_format),
{
    match path_file_name(input_path) {
        Some(name) => {
            let file_name = output_file_name(name.as_str(), output_format);
            path_with_file_name(input_path, file_name.as_str())
        },
        None => {
            proof {
                assert(false);
            }
            String::new()
        },
    }
}

impl OptionsBuilder {
    /// Options with no image and no annotation, JPEG output, no debugging,
    /// and the given default font.
    pub fn new(font_path: String) -> (b: OptionsBuilder)
        ensures
            b.base_image is None,
            b.annotations@.len() == 0,
            b.output_path is None,
            b.output_format == OutputFormat::Jpg,
            b.font_path@ == font_path@,
            !b.debug,
    {
        OptionsBuilder {
            base_image: None,
            annotations: Vec::new(),
            output_path: None,
            output_format: OutputFormat::Jpg,
            font_path,
            debug: false,
        }
    }

    /// Checks the options: the image path must have a file name. The output
    /// path is the one given, or one made from the image's file name.
    pub fn build(self) -> (r: Result<Options, BuildOptionsError>)
        requires
            self.base_image is Some,
        ensures
            match r {
                Err(e) => file_name_of(self.base_image.unwrap()@) is None && e.spec_kind()
                    == BuildOptionsErrorKind::ImagePath && e.spec_description()
                    == image_path_description(),
                Ok(o) => {
                    &&& file_name_of(self.base_image.unwrap()@) is Some
                    &&& o.base_image@ == self.base_image.unwrap()@
                    &&& o.annotations@ == self.annotations@
                    &&& o.output_path@ == match self.output_path {
                        Some(p) => p@,
                        None => default_output_path(self.base_image.unwrap()@, self.output_format),
                    }
                    &&& o.output_format == self.output_format
                    &&& o.font_path@ == self.font_path@
                    &&& o.debug == self.debug
                },
            },
    {
        let input_path = match self.base_image {
            Some(p) => p,
            None => {
                return Err(BuildOptionsError::image_path());
            },
        };
        let file_name = path_file_name(input_path.as_str());
        if file_name.is_none() {
            return Err(BuildOptionsError::image_path());
        }
        let output_format = self.output_format;
        let output_path = match self.output_path {
            Some(s) => s,
            None => create_output_file_path(input_path.as_str(), output_format),
        };
        Ok(
            Options {
                base_image: input_path,
                annotations: self.annotations,
                output_path,
                output_format,
                font_path: self.font_path,
                debug: self.debug,
            },
        )
    }
}

/// What became of the scaling multiplier of the command line. Its text is
/// read into a decimal fraction by the caller, who keeps the fraction; this
/// says whether it was given and whether it was a decimal value.
#[derive(Clone, Copy, Debug, PartialEq, Eq, Structural)]
pub enum ScaleReading {
    NotGiven,
    Decimal,
    NotDecimal,
}

/// The values read from such a command line.
#[derive(Clone, Debug)]
pub struct CommandLine {
    pub scale: ScaleReading,
    pub image: String,
    pub caption: Option<String>,
    pub bottom: Option<String>,
    pub top: Option<String>,
    pub middle: Option<String>,
    pub output: Option<String>,
    pub font: Option<String>,
    pub debug: bool,
    pub encoding: Option<String>,
    pub jpg: bool,
    pub png: bool,
}

/// The annotations that the command line asks for, in the order caption,
/// top, middle, bottom.
pub open spec fn command_line_annotations(c: CommandLine) -> Seq<(Position, Seq<char>)> {
    opt_entry(Position::Bottom, c.caption) + opt_entry(Position::Top, c.top) + opt_entry(
        Position::Middle,
        c.middle,
    ) + opt_entry(Position::Bottom, c.bottom)
}

/// No annotation, or the one written `o`, at `p`.
pub open spec fn opt_entry(p: Position, o: Option<String>) -> Seq<(Position, Seq<char>)> {
    match o {
        Some(t) => seq![(p, t@)],
        None => seq![],
    }
}

/// The format the command line asks for: PNG under the `png` flag, or an
/// encoding of `png` or `PNG`; JPEG otherwise.
pub open spec fn command_line_format(c: CommandLine) -> OutputFormat {
    if c.png {
        OutputFormat::Png
    } else {
        match c.encoding {
            Some(e) => if e@ == "png"@ || e@ == "PNG"@ {
                OutputFormat::Png
            } else {
                OutputFormat::Jpg
            },
            None => OutputFormat::Jpg,
        }
    }
}

/// `v` holds the annotations written in `requested`, in order.
pub open spec fn holds_annotations(v: Seq<Annotation>, requested: Seq<(Position, Seq<char>)>) -> bool {
    &&& v.len() == requested.len()
    &&& forall|i: int|
        0 <= i < v.len() ==> (#[trigger] v[i]).position == requested[i].0 && v[i].text@
            == requested[i].1
}

fn push_annotation(v: &mut Vec<Annotation>, p: Position, o: &Option<String>)
    ensures
        final(v)@.len() == old(v)@.len() + opt_entry(p, *o).len(),
        forall|i: int| 0 <= i < old(v)@.len() ==> #[trigger] final(v)@[i] == old(v)@[i],
        holds_annotations(final(v)@.skip(old(v)@.len() as int), opt_entry(p, *o)),
{
    if let Some(t) = o {
        v.push(Annotation::at(p, t.clone()));
    }
}

/// Reads the options from the values of the command line. `default_font_path`
/// is the font used where none is given. A scaling multiplier that is no
/// decimal value is refused first.
pub fn read_command(c: &CommandLine, default_font_path: String) -> (r: Result<
    Options,
    BuildOptionsError,
>)
    ensures
        match r {
            Err(e) => if c.scale == ScaleReading::NotDecimal {
                &&& e.spec_kind() == BuildOptionsErrorKind::ScalingMultiplier
                &&& e.spec_description() == scaling_multiplier_description()
            } else {
                &&& file_name_of(c.image@) is None
                &&& e.spec_kind() == BuildOptionsErrorKind::ImagePath
                &&& e.spec_description() == image_path_description()
            },
            Ok(o) => {
                &&& c.scale != ScaleReading::NotDecimal
                &&& file_name_of(c.image@) is Some
                &&& o.base_image@ == c.image@
                &&& holds_annotations(o.annotations@, command_line_annotations(*c))
                &&& o.output_path@ == match c.output {
                    Some(p) => p@,
                    None => default_output_path(c.image@, command_line_format(*c)),
                }
                &&& o.output_format == command_line_format(*c)
                &&& o.font_path@ == match c.font {
                    Some(f) => f@,
                    None => default_font_path@,
                }
                &&& o.debug == c.debug
            },
        },
{
    if c.scale == ScaleReading::NotDecimal {
        return Err(BuildOptionsError::scaling_multiplier());
    }
    let mut options = OptionsBuilder::new(default_font_path);
    options.base_image = Some(c.image.clone());
    options.output_path = match &c.output {
        Some(o) => Some(o.clone()),
        None => None,
    };
    if let Some(font_path) = &c.font {
        options.font_path = font_path.clone();
    }
    let mut annotations: Vec<Annotation> = Vec::new();
    let ghost s0 = annotations@;
    push_annotation(&mut annotations, Position::Bottom, &c.caption);
    let ghost s1 = annotations@;
    push_annotation(&mut annotations, Position::Top, &c.top);
    let ghost s2 = annotations@;
    push_annotation(&mut annotations, Position::Middle, &c.middle);
    let ghost s3 = annotations@;
    push_annotation(&mut annotations, Position::Bottom, &c.bottom);
    proof {
        let req = command_line_annotations(*c);
        let e0 = opt_entry(Position::Bottom, c.caption);
        let e1 = opt_entry(Position::Top, c.top);
        let e2 = opt_entry(Position::Middle, c.middle);
        let e3 = opt_entry(Position::Bottom, c.bottom);
        assert forall|i: int| 0 <= i < annotations@.len() implies (
        #[trigger] annotations@[i]).position == req[i].0 && annotations@[i].text@ == req[i].1 by {
            if i < s1.len() {
                assert(annotations@[i] == s1[i]);
                assert(s1.skip(0)[i] == s1[i]);
            } else if i < s2.len() {
                assert(annotations@[i] == s2[i]);
                assert(s2.skip(s1.len() as int)[i - s1.len()] == s2[i]);
            } else if i < s3.len() {
                assert(annotations@[i] == s3[i]);
                assert(s3.skip(s2.len() as int)[i - s2.len()] == s3[i]);
            } else {
                assert(annotations@.skip(s3.len() as int)[i - s3.len()] == annotations@[i]);
            }
        }
    }
    options.annotations = annotations;
    if c.png {
        options.output_format = OutputFormat::Png;
    } else if let Some(format) = &c.encoding {
        options.output_format = if same_text(format.as_str(), "png") || same_text(format.as_str(), "PNG") {
            OutputFormat::Png
        } else {
            OutputFormat::Jpg
        };
    }
    options.debug = c.debug;
    options.build()
}

/// Each text of the command line gives exactly one annotation at its own
/// place, whatever the other texts are: in order, the caption at the bottom,
/// the top text, the middle text and the bottom text, each where given.
pub proof fn law_each_text_one_annotation(v: Seq<Annotation>, c: CommandLine)
    requires
        holds_annotations(v, command_line_annotations(c)),
    ensures
        v.len() == given(c.caption) + given(c.top) + given(c.middle) + given(c.bottom),
        c.caption matches Some(t) ==> v[0].position == Position::Bottom && v[0].text@ == t@,
        c.top matches Some(t) ==> v[given(c.caption)].position == Position::Top && v[given(
            c.caption,
        )].text@ == t@,
        c.middle matches Some(t) ==> v[given(c.caption) + given(c.top)].position
            == Position::Middle && v[given(c.caption) + given(c.top)].text@ == t@,
        c.bottom matches Some(t) ==> v[v.len() - 1].position == Position::Bottom && v[v.len()
            - 1].text@ == t@,
{
    let r = command_line_annotations(c);
    if c.caption is Some {
        assert(v[0].position == r[0].0);
    }
    if c.top is Some {
        let i = given(c.caption);
        assert(v[i].position == r[i].0);
    }
    if c.middle is Some {
        let i = given(c.caption) + given(c.top);
        assert(v[i].position == r[i].0);
    }
    if c.bottom is Some {
        let i = v.len() - 1;
        assert(v[i].position == r[i].0);
    }
}

} // verus!
