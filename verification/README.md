# annatar

A command line tool for adding text to pictures, as a verified library and a
thin program around it.

- `src/` is the library, verified with Verus:
  - `config/scale_grammar.rs`: the in-band scale prefix of an annotation
    (`\1.3 text`), its grammar as spec functions, the search for it, and its
    laws (white space after the number is dropped and required, a doubled
    backslash escapes, plain text is kept, a scale is a decimal number).
  - `config/scaled_annotation.rs`: annotations, their places and scales.
  - `config/options.rs`: the command line as plain values, the annotations it
    asks for, the output path and format.
  - `config/resource.rs`: whether an image is downloaded or read from a file.
  - `application.rs`: what a run does, and the sorted, deduplicated font
    listings and case-insensitive font search.
  - `options.rs`: options read from a command line of image, texts, output
    path, encoding and font path, and their checks.
  - `report.rs`: error messages wrapped to the terminal.
  - `chars.rs`, `text.rs`: character classes and string helpers.
- `app/` is the program: command line parsing, fetching the image, fonts,
  drawing and saving, and printing.
- `tests/` runs the library on concrete values, and compares the grammar with
  the `regex` crate on the pattern `^\\(?P<scale>[0-9]+(\.[0-9]+)?)\s+(?P<caption>.+)`.
  That pattern is anchored at the beginning of the annotation and takes only
  the digits `0` to `9`; the tool's documented pattern,
  `\\(?P<scale>\d+(\.\d+)?)\s+(?P<caption>.+)`, is searched for anywhere and
  takes any Unicode decimal digit. The scale is documented as a number written
  at the beginning of the annotation, and only such digits read as a number.
