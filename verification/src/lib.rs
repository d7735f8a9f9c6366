//! Turns a book of Markdown chapters into slide decks and a navigation index.
//!
//! * [`book`] reads the book's configuration and lists the chapters to build.
//! * [`outline`] reads the book's summary into the entries of its index.
//! * [`deck`] turns one chapter into the slides of its deck.
//! * [`index`] renders the navigation page.
//! * [`plugins`] holds the adapters for a renderer that calls back at
//!   headings and code blocks.
//! * [`text`] defines the text operations that the contracts speak of.
//!
//! The library takes the text of a file and returns the text or bytes of
//! another; it opens none of the book's files. The one thing it does
//! outside itself is to render diagrams: [`generate_deck`] runs the `dot`
//! program of Graphviz, which gets each diagram through a temporary file.

pub mod book;
pub mod deck;
pub mod entry;
pub mod error;
pub mod index;
pub mod outline;
pub mod plugins;
pub mod text;

pub use deck::generate_deck;
pub use entry::IndexEntry;
pub use error::SlidesError;
pub use index::generate_index;
pub use outline::load_book;
