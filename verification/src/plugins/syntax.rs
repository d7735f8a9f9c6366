//! Marking code blocks with the class of their language.

use vstd::prelude::*;
use crate::text::{append, append_str, chars_of, starts_with, string_of};

verus! {

/// Writes the tags around a code block, with the block's language as the
/// class of its `<code>` element.
pub struct SyntaxHighlighter();

/// The language that a class attribute names: what follows `language-`, or
/// nothing where the attribute is missing or does not begin so.
pub open spec fn language_of(class: Option<Seq<char>>) -> Seq<char> {
    match class {
        Some(value) => if "language-"@.is_prefix_of(value) {
            value.skip("language-"@.len() as int)
        } else {
            Seq::empty()
        },
        None => Seq::empty(),
    }
}

/// The views of an optional text.
pub open spec fn text_view(text: Option<&str>) -> Option<Seq<char>> {
    match text {
        Some(value) => Some(value@),
        None => None,
    }
}

impl SyntaxHighlighter {
    /// A new highlighter.
    pub fn new() -> SyntaxHighlighter {
        SyntaxHighlighter()
    }

    /// The opening tag of the block.
    pub fn pre_tag(&self) -> (html: String)
        ensures
            html@ == "<pre>\n"@,
    {
        let out = chars_of("<pre>\n");
        string_of(&out)
    }

    /// The opening tag of the code, for a block whose `class` attribute is
    /// `class`.
    pub fn code_tag(&self, class: Option<&str>) -> (html: String)
        ensures
            html@ == "<code data-trim data-noescape class=\""@ + language_of(text_view(class))
                + "\">\n"@,
    {
        let mut lang: Vec<char> = Vec::new();
        if let Some(value) = class {
            let value_chars = chars_of(value);
            let prefix = chars_of("language-");
            if starts_with(&value_chars, &prefix) {
                let mut i: usize = prefix.len();
                while i < value_chars.len()
                    invariant
                        prefix.len() <= i <= value_chars.len(),
                        lang@ == value_chars@.subrange(prefix.len() as int, i as int),
                    decreases value_chars.len() - i,
                {
                    lang.push(value_chars[i]);
                    i += 1;
                }
                assert(lang@ == value_chars@.skip(prefix.len() as int));
            }
        }
        assert(lang@ == language_of(text_view(class)));
        let mut out: Vec<char> = Vec::new();
        append_str(&mut out, "<code data-trim data-noescape class=\"");
        append(&mut out, &lang);
        append_str(&mut out, "\">\n");
        string_of(&out)
    }

    /// The body of the block: `code`, and a line feed after it.
    pub fn highlighted(&self, code: &str) -> (html: String)
        ensures
            html@ == code@ + "\n"@,
    {
        let mut out = chars_of(code);
        append_str(&mut out, "\n");
        string_of(&out)
    }
}

} // verus!
