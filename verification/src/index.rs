//! The navigation page: headings, and the chapters under them as lists of
//! links.

use vstd::prelude::*;
use crate::entry::{entry_views, EntryView, IndexEntry};
use crate::text::{append, append_str, chars_of, matches_at, replace_all, replaced, string_of};

verus! {

/// Whether `path` ends in the extension `.md`.
pub open spec fn has_md_extension(path: Seq<char>) -> bool {
    path.len() >= 3 && path.skip(path.len() - 3) == ".md"@
}

/// The name of the file that holds the slides of the chapter at `path`: the
/// extension `.md` becomes `.html`, and a path without it is kept.
pub open spec fn output_name(path: Seq<char>) -> Seq<char> {
    if has_md_extension(path) {
        path.take(path.len() - 3) + ".html"@
    } else {
        path
    }
}

/// One element of the index page.
pub enum IndexElement {
    /// A top-level heading, with its text.
    Heading(Seq<char>),
    /// A second-level heading, with its text.
    SubHeading(Seq<char>),
    /// The opening tag of a list.
    ListOpen,
    /// The closing tag of a list.
    ListClose,
    /// A list item that links to the slides of a chapter.
    Link { target: Seq<char>, title: Seq<char> },
    /// A list item that holds the bare title of a placeholder.
    Plain(Seq<char>),
}

/// The HTML of one element.
pub open spec fn element_html(element: IndexElement) -> Seq<char> {
    match element {
        IndexElement::Heading(text) => "<h1>"@ + text + "</h1>"@,
        IndexElement::SubHeading(text) => "<h2>"@ + text + "</h2>"@,
        IndexElement::ListOpen => "<ul>"@,
        IndexElement::ListClose => "</ul>"@,
        IndexElement::Link { target, title } => "<li><a href=\""@ + target + "\">"@ + title
            + "</a></li>"@,
        IndexElement::Plain(title) => "<li>"@ + title + "</li>"@,
    }
}

/// The HTML of `elements`, one after the other with nothing in between.
pub open spec fn elements_html(elements: Seq<IndexElement>) -> Seq<char>
    decreases elements.len(),
{
    if elements.len() == 0 {
        Seq::empty()
    } else {
        elements_html(elements.drop_last()) + element_html(elements.last())
    }
}

/// The list item of a chapter: a link to its slides, or for a placeholder,
/// a chapter with an empty path, its bare title.
pub open spec fn item_element(title: Seq<char>, path: Seq<char>) -> IndexElement {
    if path.len() == 0 {
        IndexElement::Plain(title)
    } else {
        IndexElement::Link { target: output_name(path), title }
    }
}

/// The HTML of the list item of a chapter.
pub open spec fn item_html(title: Seq<char>, path: Seq<char>) -> Seq<char> {
    element_html(item_element(title, path))
}

/// Whether a list is open after `entries`: their last one is a chapter.
pub open spec fn list_open_after(entries: Seq<EntryView>) -> bool {
    entries.len() > 0 && entries.last() is Chapter
}

/// What one entry adds to the page, given whether a list is open before it.
/// A heading first closes an open list; a chapter first opens a list unless
/// one is open.
pub open spec fn entry_elements(entry: EntryView, list_open: bool) -> Seq<IndexElement> {
    match entry {
        EntryView::Heading(text) => (if list_open {
            seq![IndexElement::ListClose]
        } else {
            Seq::empty()
        }).push(IndexElement::Heading(text)),
        EntryView::SubHeading(text) => (if list_open {
            seq![IndexElement::ListClose]
        } else {
            Seq::empty()
        }).push(IndexElement::SubHeading(text)),
        EntryView::Chapter { title, path } => (if list_open {
            Seq::empty()
        } else {
            seq![IndexElement::ListOpen]
        }).push(item_element(title, path)),
    }
}

/// The elements of `entries` up to, and without, the closing tag of a list
/// that is still open after the last of them.
pub open spec fn open_elements(entries: Seq<EntryView>) -> Seq<IndexElement>
    decreases entries.len(),
{
    if entries.len() == 0 {
        Seq::empty()
    } else {
        open_elements(entries.drop_last()) + entry_elements(
            entries.last(),
            list_open_after(entries.drop_last()),
        )
    }
}

/// The elements of the index of `entries`: every heading as an element of
/// its level, every run of chapters as one list.
pub open spec fn index_elements(entries: Seq<EntryView>) -> Seq<IndexElement> {
    open_elements(entries) + (if list_open_after(entries) {
        seq![IndexElement::ListClose]
    } else {
        Seq::empty()
    })
}

/// The HTML of the index of `entries`.
pub open spec fn index_fragment(entries: Seq<EntryView>) -> Seq<char> {
    elements_html(index_elements(entries))
}

/// The index page: `template` with `$INDEX` replaced by the HTML of
/// `entries`, and then `$TITLE` by `title`.
pub open spec fn index_page(entries: Seq<EntryView>, template: Seq<char>, title: Seq<char>) -> Seq<
    char,
> {
    replaced(replaced(template, "$INDEX"@, index_fragment(entries)), "$TITLE"@, title)
}

/// The number of links among `elements`.
pub open spec fn link_count(elements: Seq<IndexElement>) -> nat
    decreases elements.len(),
{
    if elements.len() == 0 {
        0
    } else {
        link_count(elements.drop_last()) + (if elements.last() is Link {
            1nat
        } else {
            0nat
        })
    }
}

/// The number of bare titles among `elements`.
pub open spec fn plain_count(elements: Seq<IndexElement>) -> nat
    decreases elements.len(),
{
    if elements.len() == 0 {
        0
    } else {
        plain_count(elements.drop_last()) + (if elements.last() is Plain {
            1nat
        } else {
            0nat
        })
    }
}

/// The number of chapters among `entries` that have a file behind them.
pub open spec fn linked_chapters(entries: Seq<EntryView>) -> nat
    decreases entries.len(),
{
    if entries.len() == 0 {
        0
    } else {
        linked_chapters(entries.drop_last()) + (if entries.last() matches EntryView::Chapter {
            path,
            ..
        } && path.len() > 0 {
            1nat
        } else {
            0nat
        })
    }
}

/// The number of placeholders among `entries`.
pub open spec fn placeholders(entries: Seq<EntryView>) -> nat
    decreases entries.len(),
{
    if entries.len() == 0 {
        0
    } else {
        placeholders(entries.drop_last()) + (if entries.last() matches EntryView::Chapter {
            path,
            ..
        } && path.len() == 0 {
            1nat
        } else {
            0nat
        })
    }
}

/// Every link among `elements` has a target that is not empty.
pub open spec fn links_have_targets(elements: Seq<IndexElement>) -> bool {
    forall|i: int|
        0 <= i < elements.len() ==> (#[trigger] elements[i] matches IndexElement::Link {
            target,
            ..
        } ==> target.len() > 0)
}

/// The HTML of two runs of elements is the HTML of the first and then that
/// of the second.
pub proof fn elements_html_chains(first: Seq<IndexElement>, second: Seq<IndexElement>)
    ensures
        elements_html(first + second) == elements_html(first) + elements_html(second),
    decreases second.len(),
{
    if second.len() == 0 {
        assert(first + second == first);
        assert(elements_html(first) + Seq::<char>::empty() == elements_html(first));
    } else {
        assert((first + second).drop_last() == first + second.drop_last());
        assert((first + second).last() == second.last());
        elements_html_chains(first, second.drop_last());
        assert(elements_html(first) + elements_html(second.drop_last()) + element_html(
            second.last(),
        ) == elements_html(first) + (elements_html(second.drop_last()) + element_html(
            second.last(),
        )));
    }
}

/// What one more element adds to the counts and to the HTML.
proof fn after_element(elements: Seq<IndexElement>, element: IndexElement)
    ensures
        link_count(elements.push(element)) == link_count(elements) + (if element is Link {
            1nat
        } else {
            0nat
        }),
        plain_count(elements.push(element)) == plain_count(elements) + (if element is Plain {
            1nat
        } else {
            0nat
        }),
        elements_html(elements.push(element)) == elements_html(elements) + element_html(element),
        links_have_targets(elements) && (element matches IndexElement::Link { target, .. }
            ==> target.len() > 0) ==> links_have_targets(elements.push(element)),
{
    let after = elements.push(element);
    assert(after.drop_last() == elements);
    assert(after.last() == element);
    if links_have_targets(elements) && (element matches IndexElement::Link { target, .. }
        ==> target.len() > 0) {
        assert forall|i: int| 0 <= i < after.len() implies (#[trigger] after[i] matches IndexElement::Link {
            target,
            ..
        } ==> target.len() > 0) by {
            if i < elements.len() {
                assert(after[i] == elements[i]);
            }
        }
    }
}

/// A placeholder, a chapter with an empty path, is listed as its bare title:
/// its item holds no link.
pub proof fn placeholder_is_listed_without_link(title: Seq<char>)
    ensures
        item_html(title, Seq::empty()) == "<li>"@ + title + "</li>"@,
{
}

/// A chapter with a path is listed as a link whose target is not empty.
pub proof fn link_target_is_never_empty(title: Seq<char>, path: Seq<char>)
    requires
        path.len() > 0,
    ensures
        item_html(title, path) == "<li><a href=\""@ + output_name(path) + "\">"@ + title
            + "</a></li>"@,
        output_name(path).len() > 0,
{
    reveal_strlit(".html");
}

/// What the entries up to the last one add up to: one link for every
/// chapter with a file, one bare title for every placeholder, and no link
/// with an empty target.
proof fn open_elements_list_every_chapter_once(entries: Seq<EntryView>)
    ensures
        link_count(open_elements(entries)) == linked_chapters(entries),
        plain_count(open_elements(entries)) == placeholders(entries),
        links_have_targets(open_elements(entries)),
    decreases entries.len(),
{
    if entries.len() == 0 {
    } else {
        let head = entries.drop_last();
        open_elements_list_every_chapter_once(head);
        let before = open_elements(head);
        let mark = if entries.last() is Chapter {
            IndexElement::ListOpen
        } else {
            IndexElement::ListClose
        };
        let with_mark = if list_open_after(head) == (entries.last() is Chapter) {
            before
        } else {
            before.push(mark)
        };
        let element = match entries.last() {
            EntryView::Heading(text) => IndexElement::Heading(text),
            EntryView::SubHeading(text) => IndexElement::SubHeading(text),
            EntryView::Chapter { title, path } => item_element(title, path),
        };
        if let EntryView::Chapter { title, path } = entries.last() {
            if path.len() > 0 {
                link_target_is_never_empty(title, path);
            }
        }
        after_element(before, mark);
        after_element(with_mark, element);
        assert(open_elements(entries) == with_mark.push(element));
    }
}

/// The index lists every chapter once: its elements hold exactly one link
/// for every chapter with a file and one bare title for every placeholder,
/// and no link has an empty target.
pub proof fn index_lists_every_chapter_once(entries: Seq<EntryView>)
    ensures
        link_count(index_elements(entries)) == linked_chapters(entries),
        plain_count(index_elements(entries)) == placeholders(entries),
        links_have_targets(index_elements(entries)),
{
    open_elements_list_every_chapter_once(entries);
    if list_open_after(entries) {
        after_element(open_elements(entries), IndexElement::ListClose);
        assert(index_elements(entries) == open_elements(entries).push(IndexElement::ListClose));
    } else {
        assert(index_elements(entries) == open_elements(entries));
    }
}

/// Rendering the same entries with the same template and title again gives
/// the same page: any two pages that [`generate_index`] may return for them
/// are equal.
pub proof fn rendering_again_gives_the_same_page(
    entries: Seq<EntryView>,
    template: Seq<char>,
    title: Seq<char>,
    first: Seq<char>,
    second: Seq<char>,
)
    requires
        first == index_page(entries, template, title),
        second == index_page(entries, template, title),
    ensures
        first == second,
{
}

/// The name of the file that holds the slides of the chapter at `path`.
pub fn slide_file_name(path: &str) -> (name: String)
    ensures
        name@ == output_name(path@),
{
    let chars = chars_of(path);
    let name = slide_file_chars(&chars);
    string_of(&name)
}

pub(crate) fn slide_file_chars(path: &Vec<char>) -> (name: Vec<char>)
    ensures
        name@ == output_name(path@),
{
    let n = path.len();
    let suffix = chars_of(".md");
    proof {
        reveal_strlit(".md");
    }
    if n >= 3 && matches_at(path, n - 3, &suffix) {
        let mut name: Vec<char> = Vec::new();
        let mut i: usize = 0;
        while i < n - 3
            invariant
                i <= n - 3,
                n == path.len(),
                name@ == path@.take(i as int),
            decreases n - 3 - i,
        {
            name.push(path[i]);
            i += 1;
        }
        append_str(&mut name, ".html");
        proof {
            let tail = path@.skip(n - 3);
            assert(suffix@ == tail.subrange(0, 3));
            assert(tail.subrange(0, 3) == tail);
        }
        name
    } else {
        proof {
            if n >= 3 {
                let tail = path@.skip(n - 3);
                assert(tail.subrange(0, 3) == tail);
            }
        }
        path.clone()
    }
}

fn push_item(html: &mut Vec<char>, title: &str, path: &str)
    ensures
        final(html)@ == old(html)@ + item_html(title@, path@),
{
    let path_chars = chars_of(path);
    if path_chars.len() == 0 {
        append_str(html, "<li>");
        append_str(html, title);
        append_str(html, "</li>");
        assert(html@ == old(html)@ + ("<li>"@ + title@ + "</li>"@));
    } else {
        let name = slide_file_chars(&path_chars);
        append_str(html, "<li><a href=\"");
        append(html, &name);
        append_str(html, "\">");
        append_str(html, title);
        append_str(html, "</a></li>");
        assert(html@ == old(html)@ + ("<li><a href=\""@ + output_name(path@) + "\">"@ + title@
            + "</a></li>"@));
    }
}

fn push_entry(html: &mut Vec<char>, entry: &IndexEntry, list_open: bool)
    ensures
        final(html)@ == old(html)@ + elements_html(entry_elements(entry@, list_open)),
{
    let ghost none = Seq::<IndexElement>::empty();
    proof {
        after_element(none, IndexElement::ListOpen);
        after_element(none, IndexElement::ListClose);
        assert(elements_html(none) + "<ul>"@ == "<ul>"@);
        assert(elements_html(none) + "</ul>"@ == "</ul>"@);
        assert(old(html)@ + elements_html(none) == old(html)@);
    }
    match entry {
        IndexEntry::Chapter { title, path } => {
            if !list_open {
                append_str(html, "<ul>");
            }
            let ghost mark = if list_open {
                none
            } else {
                none.push(IndexElement::ListOpen)
            };
            assert(html@ == old(html)@ + elements_html(mark));
            push_item(html, title.as_str(), path.as_str());
            proof {
                after_element(mark, item_element(title@, path@));
                assert(old(html)@ + elements_html(mark) + item_html(title@, path@) == old(html)@
                    + (elements_html(mark) + item_html(title@, path@)));
            }
        },
        IndexEntry::Heading(text) => {
            if list_open {
                append_str(html, "</ul>");
            }
            let ghost mark = if list_open {
                none.push(IndexElement::ListClose)
            } else {
                none
            };
            assert(html@ == old(html)@ + elements_html(mark));
            append_str(html, "<h1>");
            append_str(html, text.as_str());
            append_str(html, "</h1>");
            proof {
                after_element(mark, IndexElement::Heading(text@));
                assert(html@ == old(html)@ + (elements_html(mark) + ("<h1>"@ + text@ + "</h1>"@)));
            }
        },
        IndexEntry::SubHeading(text) => {
            if list_open {
                append_str(html, "</ul>");
            }
            let ghost mark = if list_open {
                none.push(IndexElement::ListClose)
            } else {
                none
            };
            assert(html@ == old(html)@ + elements_html(mark));
            append_str(html, "<h2>");
            append_str(html, text.as_str());
            append_str(html, "</h2>");
            proof {
                after_element(mark, IndexElement::SubHeading(text@));
                assert(html@ == old(html)@ + (elements_html(mark) + ("<h2>"@ + text@ + "</h2>"@)));
            }
        },
    }
}

/// Renders the index page of a book: `template` with `$INDEX` replaced by
/// the headings and chapter lists of `chapters`, and `$TITLE` by `title`.
pub fn generate_index(chapters: &[IndexEntry], template: &str, title: &str) -> (page: String)
    ensures
        page@ == index_page(entry_views(chapters@), template@, title@),
{
    let ghost views = entry_views(chapters@);
    let mut html: Vec<char> = Vec::new();
    let mut list_open = false;
    let mut i: usize = 0;
    while i < chapters.len()
        invariant
            i <= chapters.len(),
            views == entry_views(chapters@),
            html@ == elements_html(open_elements(views.take(i as int))),
            list_open == list_open_after(views.take(i as int)),
        decreases chapters.len() - i,
    {
        let entry = &chapters[i];
        proof {
            let upto = views.take(i + 1);
            assert(upto.drop_last() == views.take(i as int));
            assert(upto.last() == entry@);
            elements_html_chains(
                open_elements(views.take(i as int)),
                entry_elements(entry@, list_open),
            );
        }
        push_entry(&mut html, entry, list_open);
        list_open = match entry {
            IndexEntry::Chapter { .. } => true,
            _ => false,
        };
        i += 1;
    }
    assert(views.take(chapters.len() as int) == views);
    if list_open {
        append_str(&mut html, "</ul>");
        proof {
            after_element(open_elements(views), IndexElement::ListClose);
            assert(index_elements(views) == open_elements(views).push(IndexElement::ListClose));
        }
    } else {
        assert(index_elements(views) == open_elements(views));
    }
    assert(html@ == index_fragment(views));
    let template_chars = chars_of(template);
    let title_chars = chars_of(title);
    let index_token = chars_of("$INDEX");
    let title_token = chars_of("$TITLE");
    let with_index = replace_all(&template_chars, &index_token, &html);
    let page = replace_all(&with_index, &title_token, &title_chars);
    string_of(&page)
}

} // verus!
