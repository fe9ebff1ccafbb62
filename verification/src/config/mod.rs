//! What the command line asks for, and how it becomes annotations.

pub mod scale_grammar;
pub mod scaled_annotation;
pub mod resource;
pub mod options;
