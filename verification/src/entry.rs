//! The entries of a book's outline.

use vstd::prelude::*;

verus! {

/// One entry of the index page.
#[derive(Debug, Clone, PartialEq, Eq)]
pub enum IndexEntry {
    /// A top-level section marker, from a `#` heading.
    Heading(String),
    /// A second-level section marker, from a `##` heading.
    SubHeading(String),
    /// A chapter, with a link title and a file path. An empty path marks a
    /// placeholder: a chapter that is listed but has no file behind it.
    Chapter { title: String, path: String },
}

/// What an [`IndexEntry`] holds, as mathematical text.
pub enum EntryView {
    Heading(Seq<char>),
    SubHeading(Seq<char>),
    Chapter { title: Seq<char>, path: Seq<char> },
}

impl View for IndexEntry {
    type V = EntryView;

    open spec fn view(&self) -> EntryView {
        match self {
            IndexEntry::Heading(text) => EntryView::Heading(text@),
            IndexEntry::SubHeading(text) => EntryView::SubHeading(text@),
            IndexEntry::Chapter { title, path } => EntryView::Chapter {
                title: title@,
                path: path@,
            },
        }
    }
}

/// The views of a sequence of entries, in order.
pub open spec fn entry_views(entries: Seq<IndexEntry>) -> Seq<EntryView> {
    Seq::new(entries.len(), |i: int| entries[i]@)
}

/// No two neighbours in `entries` are both top-level headings.
pub open spec fn no_adjacent_headings(entries: Seq<EntryView>) -> bool {
    forall|i: int|
        0 <= i && i + 1 < entries.len() ==> !(#[trigger] entries[i] is Heading && entries[i
            + 1] is Heading)
}

} // verus!
