//! Reading a book's outline: from the events of its Markdown text to the
//! ordered entries of the index.

use vstd::prelude::*;
use pulldown_cmark::{Event, HeadingLevel, Parser, Tag};
use crate::entry::{entry_views, no_adjacent_headings, EntryView, IndexEntry};
use crate::error::SlidesError;

verus! {

/// What the outline reader needs to know of one Markdown event.
#[derive(Debug, Clone, PartialEq, Eq)]
pub enum OutlineEvent {
    /// A level-1 heading opens.
    HeadingOpen,
    /// A level-2 heading opens.
    SubHeadingOpen,
    /// A run of plain text.
    Text(String),
    /// A list item opens.
    ItemOpen,
    /// A list item closes.
    ItemClose,
    /// A link opens; the field is its destination.
    LinkOpen(String),
    /// A link closes.
    LinkClose,
    /// Anything else.
    Other,
}

/// What an [`OutlineEvent`] holds, as mathematical text.
pub enum EventView {
    HeadingOpen,
    SubHeadingOpen,
    Text(Seq<char>),
    ItemOpen,
    ItemClose,
    LinkOpen(Seq<char>),
    LinkClose,
    Other,
}

impl View for OutlineEvent {
    type V = EventView;

    open spec fn view(&self) -> EventView {
        match self {
            OutlineEvent::HeadingOpen => EventView::HeadingOpen,
            OutlineEvent::SubHeadingOpen => EventView::SubHeadingOpen,
            OutlineEvent::Text(text) => EventView::Text(text@),
            OutlineEvent::ItemOpen => EventView::ItemOpen,
            OutlineEvent::ItemClose => EventView::ItemClose,
            OutlineEvent::LinkOpen(href) => EventView::LinkOpen(href@),
            OutlineEvent::LinkClose => EventView::LinkClose,
            OutlineEvent::Other => EventView::Other,
        }
    }
}

/// The views of a sequence of events, in order.
pub open spec fn event_views(events: Seq<OutlineEvent>) -> Seq<EventView> {
    Seq::new(events.len(), |i: int| events[i]@)
}

/// Why an outline is malformed.
pub enum OutlineFault {
    /// A level-1 heading is not followed by text.
    MissingHeading,
    /// A level-2 heading is not followed by text.
    MissingSubheading,
}

/// The state of the outline reader between two events.
pub struct OutlineState {
    /// The entries found so far, in document order.
    pub entries: Seq<EntryView>,
    /// Whether the reader is inside a list item.
    pub in_item: bool,
    /// The destination of a link that was opened inside the current item
    /// and still waits for its text.
    pub pending_link: Option<Seq<char>>,
}

/// The state before the first event.
pub open spec fn initial_state() -> OutlineState {
    OutlineState { entries: Seq::empty(), in_item: false, pending_link: None }
}

/// `entries` with a top-level heading appended. A top-level heading that
/// nothing has followed yet is replaced by the new one.
pub open spec fn with_heading(entries: Seq<EntryView>, text: Seq<char>) -> Seq<EntryView> {
    if entries.len() > 0 && entries.last() is Heading {
        entries.drop_last().push(EntryView::Heading(text))
    } else {
        entries.push(EntryView::Heading(text))
    }
}

/// The state after an event that opens no heading.
pub open spec fn after_event(state: OutlineState, event: EventView) -> OutlineState {
    match event {
        EventView::ItemOpen => OutlineState { in_item: true, ..state },
        EventView::LinkOpen(href) => if state.in_item {
            OutlineState { pending_link: Some(href), ..state }
        } else {
            state
        },
        EventView::Text(text) => match state.pending_link {
            Some(path) => OutlineState {
                entries: state.entries.push(EntryView::Chapter { title: text, path }),
                pending_link: None,
                ..state
            },
            None => state,
        },
        EventView::LinkClose => if state.in_item {
            OutlineState { pending_link: None, ..state }
        } else {
            state
        },
        EventView::ItemClose => OutlineState { in_item: false, ..state },
        _ => state,
    }
}

/// Whether the event at `at` is plain text.
pub open spec fn text_at(events: Seq<EventView>, at: int) -> bool {
    0 <= at < events.len() && events[at] is Text
}

/// What reading `events` from position `at` on in state `state` ends with.
/// An opening heading takes the event after it as its text, whatever the
/// state, and fails where that event is no text; every other event moves the
/// reader by [`after_event`].
pub open spec fn read_from(events: Seq<EventView>, at: int, state: OutlineState) -> Result<
    Seq<EntryView>,
    OutlineFault,
>
    decreases events.len() - at,
{
    if at < 0 || at >= events.len() {
        Ok(state.entries)
    } else {
        match events[at] {
            EventView::HeadingOpen => if text_at(events, at + 1) {
                read_from(
                    events,
                    at + 2,
                    OutlineState {
                        entries: with_heading(state.entries, events[at + 1]->Text_0),
                        ..state
                    },
                )
            } else {
                Err(OutlineFault::MissingHeading)
            },
            EventView::SubHeadingOpen => if text_at(events, at + 1) {
                read_from(
                    events,
                    at + 2,
                    OutlineState {
                        entries: state.entries.push(
                            EntryView::SubHeading(events[at + 1]->Text_0),
                        ),
                        ..state
                    },
                )
            } else {
                Err(OutlineFault::MissingSubheading)
            },
            event => read_from(events, at + 1, after_event(state, event)),
        }
    }
}

/// The entries of the outline whose events are `events`, or why it is
/// malformed.
pub open spec fn outline_of(events: Seq<EventView>) -> Result<Seq<EntryView>, OutlineFault> {
    read_from(events, 0, initial_state())
}

/// The events of the Markdown text `text`, as `pulldown_cmark` reads it with
/// no extension enabled.
pub uninterp spec fn markdown_events(text: Seq<char>) -> Seq<EventView>;

/// Whether `result` is what the outline reader owes for `expected`.
pub open spec fn reports(
    result: Result<Vec<IndexEntry>, SlidesError>,
    expected: Result<Seq<EntryView>, OutlineFault>,
) -> bool {
    match expected {
        Ok(entries) => result matches Ok(found) && entry_views(found@) == entries,
        Err(OutlineFault::MissingHeading) => result matches Err(SlidesError::MissingHeading),
        Err(OutlineFault::MissingSubheading) => result matches Err(SlidesError::MissingSubheading),
    }
}

/// Appending a heading keeps top-level headings apart.
proof fn with_heading_keeps_apart(entries: Seq<EntryView>, text: Seq<char>)
    requires
        no_adjacent_headings(entries),
    ensures
        no_adjacent_headings(with_heading(entries, text)),
{
    let after = with_heading(entries, text);
    assert forall|i: int| 0 <= i && i + 1 < after.len() implies !(#[trigger] after[i] is Heading
        && after[i + 1] is Heading) by {
        if entries.len() > 0 && entries.last() is Heading {
            if i + 1 < after.len() - 1 {
                assert(after[i] == entries[i]);
                assert(after[i + 1] == entries[i + 1]);
            } else {
                assert(after[i] == entries[i]);
                assert(entries[i + 1] is Heading);
            }
        } else {
            if i + 1 < after.len() - 1 {
                assert(after[i] == entries[i]);
                assert(after[i + 1] == entries[i + 1]);
            } else {
                assert(after[i] == entries[i]);
            }
        }
    }
}

/// Appending an entry that is no top-level heading keeps top-level headings
/// apart.
proof fn push_keeps_apart(entries: Seq<EntryView>, entry: EntryView)
    requires
        no_adjacent_headings(entries),
        !(entry is Heading),
    ensures
        no_adjacent_headings(entries.push(entry)),
{
    let after = entries.push(entry);
    assert forall|i: int| 0 <= i && i + 1 < after.len() implies !(#[trigger] after[i] is Heading
        && after[i + 1] is Heading) by {
        if i + 1 < entries.len() {
            assert(after[i] == entries[i]);
            assert(after[i + 1] == entries[i + 1]);
        }
    }
}

/// Reading on from a state whose entries keep top-level headings apart ends
/// with entries that do.
pub proof fn read_keeps_headings_apart(events: Seq<EventView>, at: int, state: OutlineState)
    requires
        no_adjacent_headings(state.entries),
    ensures
        read_from(events, at, state) matches Ok(entries) ==> no_adjacent_headings(entries),
    decreases events.len() - at,
{
    if at < 0 || at >= events.len() {
    } else {
        match events[at] {
            EventView::HeadingOpen => {
                if text_at(events, at + 1) {
                    let text = events[at + 1]->Text_0;
                    with_heading_keeps_apart(state.entries, text);
                    read_keeps_headings_apart(
                        events,
                        at + 2,
                        OutlineState { entries: with_heading(state.entries, text), ..state },
                    );
                }
            },
            EventView::SubHeadingOpen => {
                if text_at(events, at + 1) {
                    let entry = EntryView::SubHeading(events[at + 1]->Text_0);
                    push_keeps_apart(state.entries, entry);
                    read_keeps_headings_apart(
                        events,
                        at + 2,
                        OutlineState { entries: state.entries.push(entry), ..state },
                    );
                }
            },
            event => {
                if let EventView::Text(text) = event {
                    if let Some(path) = state.pending_link {
                        push_keeps_apart(state.entries, EntryView::Chapter { title: text, path });
                    }
                }
                read_keeps_headings_apart(events, at + 1, after_event(state, event));
            },
        }
    }
}

/// However many level-1 headings follow one another in an outline, no two
/// neighbours among its entries are both top-level headings.
pub proof fn outline_keeps_headings_apart(events: Seq<EventView>)
    ensures
        outline_of(events) matches Ok(entries) ==> no_adjacent_headings(entries),
{
    read_keeps_headings_apart(events, 0, initial_state());
}

/// A link inside a list item becomes a chapter with the link's text as its
/// title and the link's destination as its path, whatever the destination:
/// an empty one gives a chapter with an empty path.
pub proof fn link_in_item_becomes_chapter(state: OutlineState, href: Seq<char>, text: Seq<char>)
    requires
        state.in_item,
    ensures
        after_event(after_event(state, EventView::LinkOpen(href)), EventView::Text(text)) == (
        OutlineState {
            entries: state.entries.push(EntryView::Chapter { title: text, path: href }),
            pending_link: None,
            ..state
        }),
{
}

/// An outline of one list item that holds one link has one entry: the
/// chapter of that link. With an empty destination it is a placeholder.
pub proof fn one_link_gives_one_chapter(href: Seq<char>, text: Seq<char>)
    ensures
        outline_of(
            seq![
                EventView::ItemOpen,
                EventView::LinkOpen(href),
                EventView::Text(text),
                EventView::LinkClose,
                EventView::ItemClose,
            ],
        ) == Ok::<Seq<EntryView>, OutlineFault>(
            seq![EntryView::Chapter { title: text, path: href }],
        ),
{
    reveal_with_fuel(read_from, 6);
    let found = Seq::<EntryView>::empty().push(EntryView::Chapter { title: text, path: href });
    assert(found == seq![EntryView::Chapter { title: text, path: href }]);
}

/// Reads Markdown text into events: `pulldown_cmark::Parser::new`, walked to
/// its end. The events depend on the text alone; each is kept as the one
/// [`OutlineEvent`] that stands for it, with the text of a text run and the
/// destination of a link.
#[verifier::external_body]
fn read_events(text: &str) -> (events: Vec<OutlineEvent>)
    ensures
        event_views(events@) == markdown_events(text@),
{
    Parser::new(text).map(|event| match event {
        Event::Start(Tag::Heading(HeadingLevel::H1, ..)) => OutlineEvent::HeadingOpen,
        Event::Start(Tag::Heading(HeadingLevel::H2, ..)) => OutlineEvent::SubHeadingOpen,
        Event::Text(text) => OutlineEvent::Text(text.to_string()),
        Event::Start(Tag::Item) => OutlineEvent::ItemOpen,
        Event::End(Tag::Item) => OutlineEvent::ItemClose,
        Event::Start(Tag::Link(_, href, _)) => OutlineEvent::LinkOpen(href.to_string()),
        Event::End(Tag::Link(..)) => OutlineEvent::LinkClose,
        _ => OutlineEvent::Other,
    }).collect()
}

/// The entries of the outline whose events are `events`.
///
/// A level-1 or level-2 heading must be followed by its text; the first one
/// that is not ends the reading with `MissingHeading` or `MissingSubheading`.
pub fn read_outline(events: &[OutlineEvent]) -> (result: Result<Vec<IndexEntry>, SlidesError>)
    ensures
        reports(result, outline_of(event_views(events@))),
        result matches Ok(found) ==> no_adjacent_headings(entry_views(found@)),
{
    let ghost views = event_views(events@);
    let mut entries: Vec<IndexEntry> = Vec::new();
    let mut in_item = false;
    let mut pending_link: Option<String> = None;
    let mut at: usize = 0;
    assert(entry_views(entries@) == Seq::<EntryView>::empty());
    while at < events.len()
        invariant
            at <= events.len(),
            views == event_views(events@),
            outline_of(views) == read_from(
                views,
                at as int,
                OutlineState {
                    entries: entry_views(entries@),
                    in_item,
                    pending_link: match pending_link {
                        Some(href) => Some(href@),
                        None => None,
                    },
                },
            ),
        decreases events.len() - at,
    {
        let ghost before = entry_views(entries@);
        match &events[at] {
            OutlineEvent::HeadingOpen => {
                if at + 1 < events.len() {
                    if let OutlineEvent::Text(text) = &events[at + 1] {
                        let n = entries.len();
                        let replaces = n > 0 && match &entries[n - 1] {
                            IndexEntry::Heading(_) => true,
                            _ => false,
                        };
                        if replaces {
                            entries.pop();
                        }
                        entries.push(IndexEntry::Heading(text.clone()));
                        assert(entry_views(entries@) == with_heading(before, text@));
                        at += 2;
                        continue ;
                    }
                }
                return Err(SlidesError::MissingHeading);
            },
            OutlineEvent::SubHeadingOpen => {
                if at + 1 < events.len() {
                    if let OutlineEvent::Text(text) = &events[at + 1] {
                        entries.push(IndexEntry::SubHeading(text.clone()));
                        assert(entry_views(entries@) == before.push(
                            EntryView::SubHeading(text@),
                        ));
                        at += 2;
                        continue ;
                    }
                }
                return Err(SlidesError::MissingSubheading);
            },
            OutlineEvent::ItemOpen => {
                in_item = true;
            },
            OutlineEvent::LinkOpen(href) => {
                if in_item {
                    pending_link = Some(href.clone());
                }
            },
            OutlineEvent::Text(text) => {
                if let Some(path) = pending_link {
                    entries.push(IndexEntry::Chapter { title: text.clone(), path });
                    assert(entry_views(entries@) == before.push(
                        EntryView::Chapter { title: text@, path: path@ },
                    ));
                    pending_link = None;
                }
            },
            OutlineEvent::LinkClose => {
                if in_item {
                    pending_link = None;
                }
            },
            OutlineEvent::ItemClose => {
                in_item = false;
            },
            OutlineEvent::Other => {},
        }
        at += 1;
    }
    proof {
        outline_keeps_headings_apart(views);
    }
    Ok(entries)
}

/// Loads the outline of a book from the text of its summary file.
///
/// The text is read as Markdown; its headings of level 1 and 2 and the
/// links inside its list items become the entries, in document order.
pub fn load_book(summary_src: &str) -> (result: Result<Vec<IndexEntry>, SlidesError>)
    ensures
        reports(result, outline_of(markdown_events(summary_src@))),
        result matches Ok(found) ==> no_adjacent_headings(entry_views(found@)),
{
    let events = read_events(summary_src);
    read_outline(events.as_slice())
}

} // verus!
