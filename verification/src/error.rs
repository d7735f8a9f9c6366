//! The ways in which building a deck can fail.

use vstd::prelude::*;

verus! {

/// `std::io::Error`, carried through unopened.
#[verifier::external_type_specification]
#[verifier::external_body]
pub struct ExIoError(std::io::Error);

/// `toml::de::Error`, what the TOML reader says of a text that it refuses,
/// carried through unopened.
#[verifier::external_type_specification]
#[verifier::external_body]
pub struct ExTomlError(toml::de::Error);

/// Describes the ways in which this library can fail.
#[derive(Debug)]
pub enum SlidesError {
    /// A `#` heading of the outline has no text after it.
    MissingHeading,
    /// A `##` heading of the outline has no text after it.
    MissingSubheading,
    /// A file could not be read or written. The library touches no file
    /// itself; the variant is there for the program around it.
    Io(std::io::Error),
    /// The book's configuration names no source directory.
    NoSrcField,
    /// The book's configuration names no title.
    NoTitleField,
    /// The book's configuration has no `book` table.
    NoBookTable,
    /// The book's configuration is not valid TOML; the field is what the
    /// TOML reader said of it.
    FormatError(toml::de::Error),
    /// A diagram could not be rendered; the field is what the renderer
    /// returned.
    Diagram(std::io::Error),
}

} // verus!
