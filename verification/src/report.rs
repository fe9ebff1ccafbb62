//! How an error is shown to the user: wrapped to the terminal, at most 80
//! columns wide.
use vstd::prelude::*;

use crate::text::names_of;

verus! {

/// The widest that an error message is wrapped to.
pub const MAX_REPORT_WIDTH: usize = 80;

/// The lines that `textwrap::wrap` breaks `text` into at `width` columns,
/// with its default options.
pub uninterp spec fn wrapped_lines(text: Seq<char>, width: usize) -> Seq<Seq<char>>;

/// Calls `textwrap::wrap(text, width)`. Its result is named
/// [`wrapped_lines`]: the lines depend on the text and the width alone;
/// nothing more is claimed of them.
#[verifier::external_body]
fn wrap(text: &str, width: usize) -> (r: Vec<String>)
    ensures
        names_of(r@) == wrapped_lines(text@, width),
{
    textwrap::wrap(text, width).into_iter().map(|line| line.into_owned()).collect()
}

/// The width that an error message is wrapped to on a terminal of
/// `terminal_width` columns.
pub open spec fn report_width(terminal_width: usize) -> usize {
    if terminal_width < MAX_REPORT_WIDTH {
        terminal_width
    } else {
        MAX_REPORT_WIDTH
    }
}

/// The lines in which `message` is shown on a terminal of `terminal_width`
/// columns.
pub fn error_lines(message: &str, terminal_width: usize) -> (r: Vec<String>)
    ensures
        names_of(r@) == wrapped_lines(message@, report_width(terminal_width)),
{
    let width = if terminal_width < MAX_REPORT_WIDTH {
        terminal_width
    } else {
        MAX_REPORT_WIDTH
    };
    wrap(message, width)
}

} // verus!
