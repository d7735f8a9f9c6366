//! Adapters for a Markdown renderer that calls back at headings and at code
//! blocks. Each takes what the renderer hands over and returns the HTML to
//! write at that point.

pub mod slides;
pub mod syntax;
