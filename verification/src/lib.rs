//! Adds text to pictures: the decisions of the `annatar` command line tool.
//!
//! What the tool is asked to do, how annotations and their in-band scales
//! are read, where the result is written, and which font names are listed
//! are decided here; reading and writing pictures, fonts and files is left
//! to the program around this library.

pub mod application;
pub mod chars;
pub mod config;
pub mod options;
pub mod report;
pub mod text;

pub use report::error_lines;
pub use application::{default_font_name, dispatch, list_fonts, query_fonts, App, Task};
pub use config::options::{
    create_output_file_path, Annotate, Annotations, Args, Command, Format, Formats,
    RightsholderProtection,
};
pub use config::resource::{Location, Resource};
pub use config::scaled_annotation::{
    parse_scaled_annotation, Annotation, Position, ScaleMultiplier, ScaledAnnotation,
    ScaledAnnotationParser,
};
