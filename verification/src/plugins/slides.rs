//! Splitting rendered Markdown into slides: a `<section>` around every
//! level-1 or level-2 heading and what follows it, and an `<aside>` around
//! speaker notes.

use vstd::prelude::*;
use crate::text::{append, append_str, chars_of, decimal, decimal_chars, same_chars, string_of};

verus! {

/// Adds `<section>` around the slides that `<h1>` and `<h2>` headings start.
pub struct SlideAdapter {
    first: bool,
    no_heading_slide: bool,
    in_speaker_notes: bool,
}

/// What a [`SlideAdapter`] remembers between two headings.
pub struct SlideState {
    /// No slide has been opened yet.
    pub first: bool,
    /// The heading that was entered last is hidden inside a comment.
    pub no_heading_slide: bool,
    /// A speaker-notes container is open.
    pub in_speaker_notes: bool,
}

impl View for SlideAdapter {
    type V = SlideState;

    closed spec fn view(&self) -> SlideState {
        SlideState {
            first: self.first,
            no_heading_slide: self.no_heading_slide,
            in_speaker_notes: self.in_speaker_notes,
        }
    }
}

/// Whether a heading starts the speaker notes of a slide.
pub open spec fn opens_notes(level: u8, content: Seq<char>) -> bool {
    level == 3 && content == "Notes"@
}

/// Whether a heading starts a new slide.
pub open spec fn opens_slide(level: u8, content: Seq<char>) -> bool {
    !opens_notes(level, content) && level <= 2
}

/// Whether a heading only marks a slide break and is not to be shown.
pub open spec fn is_hidden(content: Seq<char>) -> bool {
    content == "NO_HEADING"@
}

/// The containers that are closed and opened before a heading.
pub open spec fn container_html(state: SlideState, level: u8, content: Seq<char>) -> Seq<char> {
    if opens_notes(level, content) {
        "<aside class=\"notes\">\n"@
    } else if level <= 2 {
        (if state.first {
            Seq::empty()
        } else {
            (if state.in_speaker_notes {
                "</aside>\n"@
            } else {
                Seq::empty()
            }) + "</section>\n"@
        }) + "<section>\n"@
    } else {
        Seq::empty()
    }
}

/// The opening of a heading: its tag, or the start of the comment that
/// hides it.
pub open spec fn heading_open_html(level: u8, content: Seq<char>) -> Seq<char> {
    if is_hidden(content) {
        "<!-- \n"@
    } else {
        "<h"@ + decimal(level) + ">\n"@
    }
}

/// The closing of a heading: its tag, or the end of the comment that hides
/// it.
pub open spec fn heading_close_html(state: SlideState, level: u8) -> Seq<char> {
    if state.no_heading_slide {
        " -->\n"@
    } else {
        "</h"@ + decimal(level) + ">\n"@
    }
}

/// The state after a heading was entered.
pub open spec fn after_enter(state: SlideState, level: u8, content: Seq<char>) -> SlideState {
    SlideState {
        first: state.first && !opens_slide(level, content),
        no_heading_slide: is_hidden(content),
        in_speaker_notes: if opens_notes(level, content) {
            true
        } else if level <= 2 && !state.first {
            false
        } else {
            state.in_speaker_notes
        },
    }
}

impl SlideAdapter {
    /// An adapter that has seen no heading yet.
    pub fn new() -> (adapter: SlideAdapter)
        ensures
            adapter@ == (SlideState {
                first: true,
                no_heading_slide: false,
                in_speaker_notes: false,
            }),
    {
        SlideAdapter { first: true, no_heading_slide: false, in_speaker_notes: false }
    }

    /// The HTML to write where a heading of `level` with the text `content`
    /// begins.
    ///
    /// A level-3 heading `Notes` opens the speaker notes. Any other heading
    /// of level 1 or 2 closes the slide before it, with its notes, and opens
    /// a new one. The heading `NO_HEADING` is put inside a comment.
    pub fn enter(&mut self, level: u8, content: &str) -> (html: String)
        ensures
            html@ == container_html(old(self)@, level, content@) + heading_open_html(
                level,
                content@,
            ),
            final(self)@ == after_enter(old(self)@, level, content@),
    {
        let content_chars = chars_of(content);
        let notes = chars_of("Notes");
        let hidden = chars_of("NO_HEADING");
        let mut out: Vec<char> = Vec::new();
        if level == 3 && same_chars(&content_chars, &notes) {
            append_str(&mut out, "<aside class=\"notes\">\n");
            self.in_speaker_notes = true;
        } else if level <= 2 {
            if !self.first {
                if self.in_speaker_notes {
                    self.in_speaker_notes = false;
                    append_str(&mut out, "</aside>\n");
                }
                append_str(&mut out, "</section>\n");
            } else {
                self.first = false;
            }
            append_str(&mut out, "<section>\n");
        }
        assert(out@ == container_html(old(self)@, level, content@));
        if same_chars(&content_chars, &hidden) {
            self.no_heading_slide = true;
            append_str(&mut out, "<!-- \n");
        } else {
            self.no_heading_slide = false;
            let digits = decimal_chars(level);
            let ghost before = out@;
            append_str(&mut out, "<h");
            append(&mut out, &digits);
            append_str(&mut out, ">\n");
            assert(out@ == before + ("<h"@ + decimal(level) + ">\n"@));
        }
        string_of(&out)
    }

    /// The HTML to write where a heading of `level` ends.
    pub fn exit(&mut self, level: u8) -> (html: String)
        ensures
            html@ == heading_close_html(old(self)@, level),
            final(self)@ == (SlideState { no_heading_slide: false, ..old(self)@ }),
    {
        let mut out: Vec<char> = Vec::new();
        if self.no_heading_slide {
            append_str(&mut out, " -->\n");
            self.no_heading_slide = false;
        } else {
            let digits = decimal_chars(level);
            append_str(&mut out, "</h");
            append(&mut out, &digits);
            append_str(&mut out, ">\n");
        }
        string_of(&out)
    }
}

} // verus!
