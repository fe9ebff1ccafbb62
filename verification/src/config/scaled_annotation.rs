//! Annotations with their own scale.
use vstd::prelude::*;

use crate::chars::{is_decimal_digit, is_white_space};
use crate::config::scale_grammar::{
    decimal_number, law_escaped_backslash, law_in_band_scale, law_plain_text, scale_captures_exec,
    scaled_annotation_parts,
};

verus! {

/// Where on the picture an annotation goes.
#[derive(Clone, Copy, Debug, PartialEq, Eq, Structural)]
pub enum Position {
    Top,
    Middle,
    Bottom,
}

/// A text and the place on the picture where it goes.
#[derive(Clone, Debug)]
pub struct Annotation {
    pub text: String,
    pub position: Position,
}

impl Annotation {
    /// An annotation near the top of the picture.
    pub fn top(text: String) -> (a: Annotation)
        ensures
            a.text@ == text@,
            a.position == Position::Top,
    {
        Annotation { text, position: Position::Top }
    }

    /// An annotation in the middle of the picture.
    pub fn middle(text: String) -> (a: Annotation)
        ensures
            a.text@ == text@,
            a.position == Position::Middle,
    {
        Annotation { text, position: Position::Middle }
    }

    /// An annotation near the bottom of the picture.
    pub fn bottom(text: String) -> (a: Annotation)
        ensures
            a.text@ == text@,
            a.position == Position::Bottom,
    {
        Annotation { text, position: Position::Bottom }
    }

    /// An annotation at the given place.
    pub fn at(position: Position, text: String) -> (a: Annotation)
        ensures
            a.text@ == text@,
            a.position == position,
    {
        match position {
            Position::Top => Annotation::top(text),
            Position::Middle => Annotation::middle(text),
            Position::Bottom => Annotation::bottom(text),
        }
    }
}

/// How large an annotation is drawn: at the scale that applies to all
/// annotations, or at the decimal number written in front of its text.
#[derive(Clone, Debug)]
pub enum ScaleMultiplier {
    Global,
    InBand(String),
}

impl ScaleMultiplier {
    /// The in-band number, if there is one.
    pub open spec fn in_band(self) -> Option<Seq<char>> {
        match self {
            ScaleMultiplier::Global => None,
            ScaleMultiplier::InBand(t) => Some(t@),
        }
    }
}

/// An annotation and the scale it is drawn at.
#[derive(Clone, Debug)]
pub struct ScaledAnnotation {
    pub scale_multiplier: ScaleMultiplier,
    pub annotation: Annotation,
}

impl ScaledAnnotation {
    fn new(scale_multiplier: ScaleMultiplier, annotation: Annotation) -> (r: Self)
        ensures
            r.scale_multiplier == scale_multiplier,
            r.annotation == annotation,
    {
        Self { scale_multiplier, annotation }
    }

    /// This is what the annotation written `raw` at `position` becomes.
    pub open spec fn is_read_from(self, position: Position, raw: Seq<char>) -> bool {
        let (scale, text) = scaled_annotation_parts(raw);
        &&& self.annotation.position == position
        &&& self.annotation.text@ == text
        &&& self.scale_multiplier.in_band() == scale
    }
}

/// The view of an optional string.
pub open spec fn opt_view(o: Option<String>) -> Option<Seq<char>> {
    match o {
        Some(t) => Some(t@),
        None => None,
    }
}

/// Reads annotations that may carry their own scale.
pub struct ScaledAnnotationParser;

impl ScaledAnnotationParser {
    pub fn new() -> (r: Self) {
        ScaledAnnotationParser
    }

    /// Reads `s` as an annotation near the bottom of the picture.
    pub fn bottom(&self, s: &str) -> (r: ScaledAnnotation)
        ensures
            r.is_read_from(Position::Bottom, s@),
    {
        self.at(Position::Bottom, s)
    }

    /// Reads `s` as an annotation in the middle of the picture.
    pub fn middle(&self, s: &str) -> (r: ScaledAnnotation)
        ensures
            r.is_read_from(Position::Middle, s@),
    {
        self.at(Position::Middle, s)
    }

    /// Reads `s` as an annotation near the top of the picture.
    pub fn top(&self, s: &str) -> (r: ScaledAnnotation)
        ensures
            r.is_read_from(Position::Top, s@),
    {
        self.at(Position::Top, s)
    }

    /// Reads `s` as an annotation at `position`.
    pub fn at(&self, position: Position, s: &str) -> (r: ScaledAnnotation)
        ensures
            r.is_read_from(position, s@),
    {
        let (annotation_scale, annotation) = parse_scaled_annotation(s);
        let scale = match annotation_scale {
            Some(t) => ScaleMultiplier::InBand(t),
            None => ScaleMultiplier::Global,
        };
        ScaledAnnotation::new(scale, Annotation::at(position, annotation))
    }
}

/// Splits the annotation written `s` into its in-band scale, if any, and its
/// text.
///
/// An annotation of the form `\1.2    frenchmen can't spell` is the text
/// "frenchmen can't spell" at a scale of 1.2; a leading backslash may be
/// escaped by doubling it.
pub fn parse_scaled_annotation(s: &str) -> (r: (Option<String>, String))
    ensures
        opt_view(r.0) == scaled_annotation_parts(s@).0,
        r.1@ == scaled_annotation_parts(s@).1,
{
    let n = s.unicode_len();
    // Leading slash is escaped.
    if n >= 2 && s.get_char(0) == '\\' && s.get_char(1) == '\\' {
        return (None, String::from_str(s.substring_char(1, n)));
    }
    // Annotation does not contain in-band scaling.
    if !(n >= 1 && s.get_char(0) == '\\') {
        return (None, String::from_str(s));
    }
    match scale_captures_exec(s) {
        None => (None, String::from_str(s)),
        Some((scale, caption)) => (Some(scale), caption),
    }
}

/// Reading an annotation does not depend on its place: the same text read at
/// any two places gives the same scale and the same text, and each keeps its
/// own place.
pub proof fn law_reading_ignores_position(
    a: ScaledAnnotation,
    b: ScaledAnnotation,
    p: Position,
    q: Position,
    raw: Seq<char>,
)
    requires
        a.is_read_from(p, raw),
        b.is_read_from(q, raw),
    ensures
        a.annotation.text@ == b.annotation.text@,
        a.scale_multiplier.in_band() == b.scale_multiplier.in_band(),
        a.annotation.position == p,
        b.annotation.position == q,
{
}

/// At every place, an annotation written as a backslash, a decimal number,
/// some white space and a caption that begins with no white space and holds
/// no line feed is that caption drawn at that number's scale.
pub proof fn law_in_band_scale_at_any_position(
    a: ScaledAnnotation,
    p: Position,
    whole: Seq<char>,
    fraction: Option<Seq<char>>,
    gap: Seq<char>,
    caption: Seq<char>,
)
    requires
        whole.len() > 0,
        forall|i: int| 0 <= i < whole.len() ==> is_decimal_digit(#[trigger] whole[i]),
        fraction matches Some(f) ==> f.len() > 0 && forall|i: int|
            0 <= i < f.len() ==> is_decimal_digit(#[trigger] f[i]),
        gap.len() > 0,
        forall|i: int| 0 <= i < gap.len() ==> is_white_space(#[trigger] gap[i]),
        caption.len() > 0,
        !is_white_space(caption[0]),
        forall|i: int| 0 <= i < caption.len() ==> #[trigger] caption[i] != '\n',
        a.is_read_from(p, seq!['\\'] + decimal_number(whole, fraction) + gap + caption),
    ensures
        a.scale_multiplier.in_band() == Some(decimal_number(whole, fraction)),
        a.annotation.text@ == caption,
        a.annotation.position == p,
{
    law_in_band_scale(whole, fraction, gap, caption);
}

/// At every place, a doubled leading backslash is read as one backslash, and
/// the annotation is drawn at the global scale.
pub proof fn law_escaped_backslash_at_any_position(a: ScaledAnnotation, p: Position, rest: Seq<char>)
    requires
        a.is_read_from(p, seq!['\\', '\\'] + rest),
    ensures
        a.scale_multiplier is Global,
        a.annotation.text@ == seq!['\\'] + rest,
        a.annotation.position == p,
{
    law_escaped_backslash(rest);
}

/// At every place, text that does not begin with a backslash is drawn as it
/// stands, at the global scale.
pub proof fn law_plain_text_at_any_position(a: ScaledAnnotation, p: Position, raw: Seq<char>)
    requires
        raw.len() == 0 || raw[0] != '\\',
        a.is_read_from(p, raw),
    ensures
        a.scale_multiplier is Global,
        a.annotation.text@ == raw,
        a.annotation.position == p,
{
    law_plain_text(raw);
}

} // verus!
