//! One chapter's slides: the chapter merged into the slide template, cut
//! into slides at its headings, with its diagrams rendered as figures.

use vstd::prelude::*;
use vstd::string::StringSliceAdditionalSpecFns;
use vstd::utf8::encode_utf8;
use graphviz_rust::cmd::CommandArg;
use crate::error::SlidesError;
use crate::text::{
    append,
    append_str,
    chars_of,
    contains,
    contains_text,
    lines_of,
    replace_all,
    replaced,
    same_chars,
    split_lines,
    starts_with,
    string_of,
};

pub mod laws;

verus! {

/// One piece of a chapter's slides, in the order of the output.
#[derive(Debug, Clone, PartialEq, Eq)]
pub enum SlidePiece {
    /// A line of the chapter, kept as it is.
    Line(String),
    /// The delimiter between two slides.
    Delimiter,
    /// A diagram; the field is its source text, every line of the block
    /// with a line feed after it.
    Diagram(String),
}

/// What a [`SlidePiece`] holds, as mathematical text.
pub enum PieceView {
    Line(Seq<char>),
    Delimiter,
    Diagram(Seq<char>),
}

impl View for SlidePiece {
    type V = PieceView;

    open spec fn view(&self) -> PieceView {
        match self {
            SlidePiece::Line(text) => PieceView::Line(text@),
            SlidePiece::Delimiter => PieceView::Delimiter,
            SlidePiece::Diagram(source) => PieceView::Diagram(source@),
        }
    }
}

/// The views of a sequence of pieces, in order.
pub open spec fn piece_views(pieces: Seq<SlidePiece>) -> Seq<PieceView> {
    Seq::new(pieces.len(), |i: int| pieces[i]@)
}

/// The views of a sequence of rendered figures, in order.
pub open spec fn figure_views(figures: Seq<Vec<u8>>) -> Seq<Seq<u8>> {
    Seq::new(figures.len(), |i: int| figures[i]@)
}

/// The slide template with `$TITLE` replaced by the chapter's title, and
/// then `$CONTENT` by the chapter's Markdown.
pub open spec fn merged(template: Seq<char>, title: Seq<char>, content: Seq<char>) -> Seq<char> {
    replaced(replaced(template, "$TITLE"@, title), "$CONTENT"@, content)
}

/// Whether `line` closes a fenced code block.
pub open spec fn closes_fence(line: Seq<char>) -> bool {
    line == "```"@
}

/// Whether `line` opens a fenced code block that holds a diagram to render.
pub open spec fn opens_diagram(line: Seq<char>) -> bool {
    "```dot"@.is_prefix_of(line) && contains_text(line, "process"@)
}

/// Whether `line` begins like a heading of level 1 or 2.
pub open spec fn is_heading(line: Seq<char>) -> bool {
    "## "@.is_prefix_of(line) || "# "@.is_prefix_of(line)
}

/// What the transformer knows after some lines of a chapter.
pub struct DeckState {
    /// The pieces put out so far.
    pub pieces: Seq<PieceView>,
    /// The text of the diagram block that is open, if one is.
    pub collecting: Option<Seq<char>>,
    /// No heading has been put out yet.
    pub first: bool,
}

/// The state before the first line.
pub open spec fn initial_deck() -> DeckState {
    DeckState { pieces: Seq::empty(), collecting: None, first: true }
}

/// The state after one more line. Inside a diagram block a closing fence
/// puts out the diagram and any other line joins its text. Outside, a line
/// that opens a diagram is dropped, a heading is put out with a delimiter
/// before it unless it is the first, and any other line is put out.
pub open spec fn after_line(state: DeckState, line: Seq<char>) -> DeckState {
    match state.collecting {
        Some(text) => if closes_fence(line) {
            DeckState {
                pieces: state.pieces.push(PieceView::Diagram(text)),
                collecting: None,
                ..state
            }
        } else {
            DeckState { collecting: Some(text + line + "\n"@), ..state }
        },
        None => if opens_diagram(line) {
            DeckState { collecting: Some(Seq::empty()), ..state }
        } else if is_heading(line) && !state.first {
            DeckState {
                pieces: state.pieces.push(PieceView::Delimiter).push(PieceView::Line(line)),
                ..state
            }
        } else if is_heading(line) {
            DeckState { pieces: state.pieces.push(PieceView::Line(line)), first: false, ..state }
        } else {
            DeckState { pieces: state.pieces.push(PieceView::Line(line)), ..state }
        },
    }
}

/// The state after the lines `lines`, taken in order from `state`.
pub open spec fn after_lines(state: DeckState, lines: Seq<Seq<char>>) -> DeckState
    decreases lines.len(),
{
    if lines.len() == 0 {
        state
    } else {
        after_line(after_lines(state, lines.drop_last()), lines.last())
    }
}

/// The pieces of the slides made of `lines`. A diagram block that is still
/// open after the last line puts out nothing.
pub open spec fn pieces_of(lines: Seq<Seq<char>>) -> Seq<PieceView> {
    after_lines(initial_deck(), lines).pieces
}

/// The number of diagrams among `pieces`.
pub open spec fn diagram_count(pieces: Seq<PieceView>) -> nat
    decreases pieces.len(),
{
    if pieces.len() == 0 {
        0
    } else {
        diagram_count(pieces.drop_last()) + (if pieces.last() is Diagram {
            1nat
        } else {
            0nat
        })
    }
}

/// The number of slide delimiters among `pieces`.
pub open spec fn delimiter_count(pieces: Seq<PieceView>) -> nat
    decreases pieces.len(),
{
    if pieces.len() == 0 {
        0
    } else {
        delimiter_count(pieces.drop_last()) + (if pieces.last() is Delimiter {
            1nat
        } else {
            0nat
        })
    }
}

/// The number of headings among `pieces`.
pub open spec fn heading_count(pieces: Seq<PieceView>) -> nat
    decreases pieces.len(),
{
    if pieces.len() == 0 {
        0
    } else {
        heading_count(pieces.drop_last()) + (if pieces.last() matches PieceView::Line(line)
            && is_heading(line) {
            1nat
        } else {
            0nat
        })
    }
}

/// The number of lines among `lines` that begin like a heading.
pub open spec fn heading_lines(lines: Seq<Seq<char>>) -> nat
    decreases lines.len(),
{
    if lines.len() == 0 {
        0
    } else {
        heading_lines(lines.drop_last()) + (if is_heading(lines.last()) {
            1nat
        } else {
            0nat
        })
    }
}

/// The source text of a diagram block whose lines are `lines`: every line
/// with a line feed after it.
pub open spec fn block_text(lines: Seq<Seq<char>>) -> Seq<char>
    decreases lines.len(),
{
    if lines.len() == 0 {
        Seq::empty()
    } else {
        block_text(lines.drop_last()) + lines.last() + "\n"@
    }
}

/// The bytes of one piece. A line is followed by a line feed; a diagram is
/// its rendered image `figure` inside a figure container.
pub open spec fn piece_bytes(piece: PieceView, figure: Seq<u8>) -> Seq<u8> {
    match piece {
        PieceView::Line(line) => encode_utf8(line + "\n"@),
        PieceView::Delimiter => encode_utf8("---\n"@),
        PieceView::Diagram(_) => encode_utf8("<figure>\n"@) + figure + encode_utf8(
            "</figure>\n"@,
        ),
    }
}

/// The bytes of the slides made of `pieces`, where the diagrams, in order,
/// were rendered as `figures`.
pub open spec fn deck_bytes(pieces: Seq<PieceView>, figures: Seq<Seq<u8>>) -> Seq<u8>
    decreases pieces.len(),
{
    if pieces.len() == 0 {
        Seq::empty()
    } else {
        deck_bytes(pieces.drop_last(), figures) + piece_bytes(
            pieces.last(),
            figures[diagram_count(pieces.drop_last()) as int],
        )
    }
}

/// Taking the lines of two runs in order is taking the first run and then
/// the second.
pub proof fn after_lines_chains(state: DeckState, first: Seq<Seq<char>>, second: Seq<Seq<char>>)
    ensures
        after_lines(state, first + second) == after_lines(after_lines(state, first), second),
    decreases second.len(),
{
    if second.len() == 0 {
        assert(first + second == first);
    } else {
        assert((first + second).drop_last() == first + second.drop_last());
        assert((first + second).last() == second.last());
        after_lines_chains(state, first, second.drop_last());
    }
}

/// Inside a diagram block, lines that close no fence only join its text.
proof fn block_is_collected(state: DeckState, body: Seq<Seq<char>>)
    requires
        state.collecting is Some,
        forall|k: int| 0 <= k < body.len() ==> !closes_fence(#[trigger] body[k]),
    ensures
        after_lines(state, body) == (DeckState {
            collecting: Some(state.collecting->0 + block_text(body)),
            ..state
        }),
    decreases body.len(),
{
    if body.len() == 0 {
        assert(state.collecting->0 + block_text(body) == state.collecting->0);
    } else {
        let head = body.drop_last();
        assert forall|k: int| 0 <= k < head.len() implies !closes_fence(#[trigger] head[k]) by {
            assert(head[k] == body[k]);
        }
        block_is_collected(state, head);
        assert(!closes_fence(body[body.len() - 1]));
        let text = state.collecting->0;
        assert(text + block_text(head) + body.last() + "\n"@ == text + (block_text(head)
            + body.last() + "\n"@));
    }
}

/// A diagram block, from the line that opens it to the closing fence, puts
/// out exactly one diagram piece, whose source is the text of the lines in
/// between. None of its lines is put out as a line, and whether a heading
/// was seen before stays as it was.
pub proof fn diagram_block_becomes_one_piece(
    state: DeckState,
    open: Seq<char>,
    body: Seq<Seq<char>>,
    close: Seq<char>,
)
    requires
        state.collecting is None,
        opens_diagram(open),
        closes_fence(close),
        forall|k: int| 0 <= k < body.len() ==> !closes_fence(#[trigger] body[k]),
    ensures
        after_lines(state, seq![open] + body + seq![close]) == (DeckState {
            pieces: state.pieces.push(PieceView::Diagram(block_text(body))),
            ..state
        }),
{
    let opened = after_lines(state, seq![open]);
    assert(seq![open].drop_last() == Seq::<Seq<char>>::empty());
    assert(after_lines(state, seq![open].drop_last()) == state);
    assert(opened == DeckState { collecting: Some(Seq::empty()), ..state });
    after_lines_chains(state, seq![open], body);
    block_is_collected(opened, body);
    let filled = after_lines(state, seq![open] + body);
    assert(Seq::<char>::empty() + block_text(body) == block_text(body));
    assert(filled == DeckState { collecting: Some(block_text(body)), ..state });
    let all = seq![open] + body + seq![close];
    assert(all.drop_last() == seq![open] + body);
    assert(all.last() == close);
}

/// What one more piece adds to the counts.
proof fn counts_after_push(pieces: Seq<PieceView>, piece: PieceView)
    ensures
        diagram_count(pieces.push(piece)) == diagram_count(pieces) + (if piece is Diagram {
            1nat
        } else {
            0nat
        }),
        delimiter_count(pieces.push(piece)) == delimiter_count(pieces) + (if piece is Delimiter {
            1nat
        } else {
            0nat
        }),
        heading_count(pieces.push(piece)) == heading_count(pieces) + (if piece matches PieceView::Line(
            line,
        ) && is_heading(line) {
            1nat
        } else {
            0nat
        }),
{
    assert(pieces.push(piece).drop_last() == pieces);
    assert(pieces.push(piece).last() == piece);
}

/// In a chapter, a diagram block that begins outside any other is replaced
/// by one diagram piece, right after the pieces of the lines before it.
pub proof fn diagram_block_in_chapter(
    before: Seq<Seq<char>>,
    open: Seq<char>,
    body: Seq<Seq<char>>,
    close: Seq<char>,
)
    requires
        after_lines(initial_deck(), before).collecting is None,
        opens_diagram(open),
        closes_fence(close),
        forall|k: int| 0 <= k < body.len() ==> !closes_fence(#[trigger] body[k]),
    ensures
        pieces_of(before + (seq![open] + body + seq![close])) == pieces_of(before).push(
            PieceView::Diagram(block_text(body)),
        ),
{
    after_lines_chains(initial_deck(), before, seq![open] + body + seq![close]);
    diagram_block_becomes_one_piece(after_lines(initial_deck(), before), open, body, close);
}

/// A delimiter stands before every heading that is put out but the first:
/// whatever the lines, the pieces hold one delimiter less than headings, and
/// none where they hold no heading.
pub proof fn one_delimiter_between_headings(lines: Seq<Seq<char>>)
    ensures
        heading_count(pieces_of(lines)) == 0 ==> delimiter_count(pieces_of(lines)) == 0,
        heading_count(pieces_of(lines)) > 0 ==> delimiter_count(pieces_of(lines))
            == heading_count(pieces_of(lines)) - 1,
        after_lines(initial_deck(), lines).first == (heading_count(pieces_of(lines)) == 0),
    decreases lines.len(),
{
    if lines.len() == 0 {
    } else {
        one_delimiter_between_headings(lines.drop_last());
        let before = after_lines(initial_deck(), lines.drop_last());
        let line = lines.last();
        if before.collecting is Some {
            if closes_fence(line) {
                counts_after_push(before.pieces, PieceView::Diagram(before.collecting->0));
            }
        } else if opens_diagram(line) {
        } else if is_heading(line) && !before.first {
            counts_after_push(before.pieces, PieceView::Delimiter);
            counts_after_push(before.pieces.push(PieceView::Delimiter), PieceView::Line(line));
        } else {
            counts_after_push(before.pieces, PieceView::Line(line));
        }
    }
}

/// A chapter without diagram blocks that holds `n` lines beginning like a
/// heading of level 1 or 2 has `n - 1` slide delimiters, and none where `n`
/// is zero.
pub proof fn delimiters_in_plain_chapter(lines: Seq<Seq<char>>)
    requires
        forall|k: int| 0 <= k < lines.len() ==> !opens_diagram(#[trigger] lines[k]),
    ensures
        heading_count(pieces_of(lines)) == heading_lines(lines),
        after_lines(initial_deck(), lines).collecting is None,
        heading_lines(lines) == 0 ==> delimiter_count(pieces_of(lines)) == 0,
        heading_lines(lines) > 0 ==> delimiter_count(pieces_of(lines)) == heading_lines(lines)
            - 1,
    decreases lines.len(),
{
    one_delimiter_between_headings(lines);
    if lines.len() == 0 {
    } else {
        let head = lines.drop_last();
        assert forall|k: int| 0 <= k < head.len() implies !opens_diagram(#[trigger] head[k]) by {
            assert(head[k] == lines[k]);
        }
        delimiters_in_plain_chapter(head);
        let before = after_lines(initial_deck(), head);
        let line = lines.last();
        assert(!opens_diagram(lines[lines.len() - 1]));
        if is_heading(line) && !before.first {
            counts_after_push(before.pieces, PieceView::Delimiter);
            counts_after_push(before.pieces.push(PieceView::Delimiter), PieceView::Line(line));
        } else {
            counts_after_push(before.pieces, PieceView::Line(line));
        }
    }
}

/// The diagrams among the first pieces are no more than those among all.
proof fn diagram_count_grows(pieces: Seq<PieceView>, n: int)
    requires
        0 <= n <= pieces.len(),
    ensures
        diagram_count(pieces.take(n)) <= diagram_count(pieces),
    decreases pieces.len() - n,
{
    if n == pieces.len() {
        assert(pieces.take(n) == pieces);
    } else {
        diagram_count_grows(pieces, n + 1);
        assert(pieces.take(n + 1).drop_last() == pieces.take(n));
    }
}

/// Runs `dot` on a graph: `graphviz_rust::exec_dot`, with each of `args`
/// handed on as a custom command-line argument. What comes back depends on
/// the `dot` program of the machine, so nothing is said of it.
#[verifier::external_body]
fn run_dot(graph: String, args: Vec<String>) -> (image: Result<Vec<u8>, std::io::Error>) {
    graphviz_rust::exec_dot(graph, args.into_iter().map(CommandArg::Custom).collect())
}

/// The arguments that the renderer gets besides the diagram's text: the one
/// that asks for SVG, a vector image format.
pub fn renderer_arguments() -> (args: Vec<String>)
    ensures
        args@.len() == 1,
        args@[0]@ == "-Tsvg"@,
{
    let mut args: Vec<String> = Vec::new();
    args.push("-Tsvg".to_owned());
    args
}

fn closes_fence_line(line: &Vec<char>) -> (closes: bool)
    ensures
        closes == closes_fence(line@),
{
    let fence = chars_of("```");
    same_chars(line, &fence)
}

fn opens_diagram_line(line: &Vec<char>) -> (opens: bool)
    ensures
        opens == opens_diagram(line@),
{
    let fence = chars_of("```dot");
    let keyword = chars_of("process");
    starts_with(line, &fence) && contains(line, &keyword)
}

fn is_heading_line(line: &Vec<char>) -> (heading: bool)
    ensures
        heading == is_heading(line@),
{
    let minor = chars_of("## ");
    let major = chars_of("# ");
    starts_with(line, &minor) || starts_with(line, &major)
}

fn merge(template: &str, title: &str, content: &str) -> (text: Vec<char>)
    ensures
        text@ == merged(template@, title@, content@),
{
    let template_chars = chars_of(template);
    let title_chars = chars_of(title);
    let content_chars = chars_of(content);
    let title_token = chars_of("$TITLE");
    let content_token = chars_of("$CONTENT");
    let with_title = replace_all(&template_chars, &title_token, &title_chars);
    replace_all(&with_title, &content_token, &content_chars)
}

fn cut(text: &Vec<char>) -> (pieces: Vec<SlidePiece>)
    ensures
        piece_views(pieces@) == pieces_of(lines_of(text@)),
{
    let lines = split_lines(text);
    let ghost line_views = lines_of(text@);
    let mut pieces: Vec<SlidePiece> = Vec::new();
    let mut collecting = false;
    let mut diagram: Vec<char> = Vec::new();
    let mut first = true;
    let mut i: usize = 0;
    assert(piece_views(pieces@) == Seq::<PieceView>::empty());
    while i < lines.len()
        invariant
            i <= lines.len(),
            lines@.len() == line_views.len(),
            forall|k: int| 0 <= k < lines@.len() ==> (#[trigger] lines@[k])@ == line_views[k],
            after_lines(initial_deck(), line_views.take(i as int)) == (DeckState {
                pieces: piece_views(pieces@),
                collecting: if collecting {
                    Some(diagram@)
                } else {
                    None
                },
                first,
            }),
        decreases lines.len() - i,
    {
        let line = &lines[i];
        let ghost before = piece_views(pieces@);
        proof {
            let upto = line_views.take(i + 1);
            assert(upto.drop_last() == line_views.take(i as int));
            assert(upto.last() == line@);
        }
        if collecting {
            if closes_fence_line(line) {
                pieces.push(SlidePiece::Diagram(string_of(&diagram)));
                assert(piece_views(pieces@) == before.push(PieceView::Diagram(diagram@)));
                collecting = false;
            } else {
                let ghost text = diagram@;
                append(&mut diagram, line);
                append_str(&mut diagram, "\n");
                assert(diagram@ == text + line@ + "\n"@);
            }
        } else if opens_diagram_line(line) {
            collecting = true;
            diagram = Vec::new();
        } else {
            let heading = is_heading_line(line);
            if heading && !first {
                pieces.push(SlidePiece::Delimiter);
                assert(piece_views(pieces@) == before.push(PieceView::Delimiter));
            }
            let ghost mid = piece_views(pieces@);
            pieces.push(SlidePiece::Line(string_of(line)));
            assert(piece_views(pieces@) == mid.push(PieceView::Line(line@)));
            if heading {
                first = false;
            }
        }
        i += 1;
    }
    assert(line_views.take(lines.len() as int) == line_views);
    pieces
}

/// Cuts the text of a chapter, already merged into its template, into the
/// pieces of its slides: its lines, with a delimiter before every heading
/// but the first, and each diagram block as one diagram.
pub fn slide_pieces(text: &str) -> (pieces: Vec<SlidePiece>)
    ensures
        piece_views(pieces@) == pieces_of(lines_of(text@)),
        delimiter_count(piece_views(pieces@)) == if heading_count(piece_views(pieces@)) == 0 {
            0
        } else {
            heading_count(piece_views(pieces@)) - 1
        },
{
    let chars = chars_of(text);
    proof {
        one_delimiter_between_headings(lines_of(text@));
    }
    cut(&chars)
}

fn push_text(out: &mut Vec<u8>, text: &str)
    ensures
        final(out)@ == old(out)@ + encode_utf8(text@),
{
    let bytes = text.as_bytes();
    let mut i: usize = 0;
    while i < bytes.len()
        invariant
            i <= bytes.len(),
            bytes@ == encode_utf8(text@),
            out@ == old(out)@ + bytes@.take(i as int),
        decreases bytes.len() - i,
    {
        out.push(bytes[i]);
        i += 1;
    }
    assert(bytes@.take(bytes.len() as int) == bytes@);
}

fn push_bytes(out: &mut Vec<u8>, more: &Vec<u8>)
    ensures
        final(out)@ == old(out)@ + more@,
{
    let mut i: usize = 0;
    while i < more.len()
        invariant
            i <= more.len(),
            out@ == old(out)@ + more@.take(i as int),
        decreases more.len() - i,
    {
        out.push(more[i]);
        i += 1;
    }
}

fn push_piece(out: &mut Vec<u8>, piece: &SlidePiece, figure: &Vec<u8>)
    ensures
        final(out)@ == old(out)@ + piece_bytes(piece@, figure@),
{
    match piece {
        SlidePiece::Line(line) => {
            let mut text = chars_of(line.as_str());
            append_str(&mut text, "\n");
            let text = string_of(&text);
            push_text(out, text.as_str());
        },
        SlidePiece::Delimiter => {
            push_text(out, "---\n");
        },
        SlidePiece::Diagram(_) => {
            push_text(out, "<figure>\n");
            push_bytes(out, figure);
            push_text(out, "</figure>\n");
            assert(out@ == old(out)@ + (encode_utf8("<figure>\n"@) + figure@ + encode_utf8(
                "</figure>\n"@,
            )));
        },
    }
}

fn count_diagrams(pieces: &[SlidePiece]) -> (count: usize)
    ensures
        count == diagram_count(piece_views(pieces@)),
{
    let ghost views = piece_views(pieces@);
    let mut count: usize = 0;
    let mut i: usize = 0;
    while i < pieces.len()
        invariant
            i <= pieces.len(),
            views == piece_views(pieces@),
            count == diagram_count(views.take(i as int)),
            count <= i,
        decreases pieces.len() - i,
    {
        proof {
            let upto = views.take(i + 1);
            assert(upto.drop_last() == views.take(i as int));
            assert(upto.last() == pieces@[i as int]@);
        }
        if let SlidePiece::Diagram(_) = &pieces[i] {
            count += 1;
        }
        i += 1;
    }
    assert(views.take(pieces.len() as int) == views);
    count
}

fn join(pieces: &[SlidePiece], figures: &[Vec<u8>]) -> (bytes: Vec<u8>)
    requires
        figures@.len() == diagram_count(piece_views(pieces@)),
    ensures
        bytes@ == deck_bytes(piece_views(pieces@), figure_views(figures@)),
{
    let ghost views = piece_views(pieces@);
    let none: Vec<u8> = Vec::new();
    let mut out: Vec<u8> = Vec::new();
    let mut used: usize = 0;
    let mut i: usize = 0;
    while i < pieces.len()
        invariant
            i <= pieces.len(),
            views == piece_views(pieces@),
            figures@.len() == diagram_count(views),
            used == diagram_count(views.take(i as int)),
            out@ == deck_bytes(views.take(i as int), figure_views(figures@)),
        decreases pieces.len() - i,
    {
        proof {
            let upto = views.take(i + 1);
            assert(upto.drop_last() == views.take(i as int));
            assert(upto.last() == pieces@[i as int]@);
            diagram_count_grows(views, i + 1);
        }
        let piece = &pieces[i];
        match piece {
            SlidePiece::Diagram(_) => {
                push_piece(&mut out, piece, &figures[used]);
                used += 1;
            },
            _ => {
                push_piece(&mut out, piece, &none);
            },
        }
        i += 1;
    }
    assert(views.take(pieces.len() as int) == views);
    out
}

/// Joins the pieces of a chapter's slides into the bytes of its file, with
/// `figures` as the rendered images of its diagrams, in order.
///
/// Returns `None` where `figures` does not hold one image per diagram.
pub fn assemble(pieces: &[SlidePiece], figures: &[Vec<u8>]) -> (deck: Option<Vec<u8>>)
    ensures
        match deck {
            Some(bytes) => figures@.len() == diagram_count(piece_views(pieces@)) && bytes@
                == deck_bytes(piece_views(pieces@), figure_views(figures@)),
            None => figures@.len() != diagram_count(piece_views(pieces@)),
        },
{
    if count_diagrams(pieces) == figures.len() {
        Some(join(pieces, figures))
    } else {
        None
    }
}

/// Turns the Markdown of one chapter into the bytes of its slide file.
///
/// `template` gets `title` for `$TITLE` and the chapter's text `content`
/// for `$CONTENT`. Every heading of level 1 or 2 but the first gets a slide
/// delimiter before it, and every diagram block is replaced by its image,
/// rendered by `dot` as SVG, inside a figure container.
///
/// The renderer is handed the source text of each diagram, in order, with
/// [`renderer_arguments`]. Fails with `SlidesError::Diagram` at the first diagram
/// that cannot be rendered; a chapter without diagrams always succeeds.
pub fn generate_deck(content: &str, template: &str, title: &str) -> (result: Result<
    Vec<u8>,
    SlidesError,
>)
    ensures
        match result {
            Ok(bytes) => exists|figures: Seq<Seq<u8>>|
                figures.len() == diagram_count(
                    pieces_of(lines_of(merged(template@, title@, content@))),
                ) && bytes@ == #[trigger] deck_bytes(
                    pieces_of(lines_of(merged(template@, title@, content@))),
                    figures,
                ),
            Err(error) => error is Diagram && diagram_count(
                pieces_of(lines_of(merged(template@, title@, content@))),
            ) > 0,
        },
{
    let text = merge(template, title, content);
    let pieces = cut(&text);
    let ghost views = piece_views(pieces@);
    let mut figures: Vec<Vec<u8>> = Vec::new();
    let mut i: usize = 0;
    while i < pieces.len()
        invariant
            i <= pieces.len(),
            views == piece_views(pieces@),
            views == pieces_of(lines_of(merged(template@, title@, content@))),
            figures@.len() == diagram_count(views.take(i as int)),
        decreases pieces.len() - i,
    {
        proof {
            let upto = views.take(i + 1);
            assert(upto.drop_last() == views.take(i as int));
            assert(upto.last() == pieces@[i as int]@);
            diagram_count_grows(views, i + 1);
        }
        if let SlidePiece::Diagram(source) = &pieces[i] {
            match run_dot(source.clone(), renderer_arguments()) {
                Ok(image) => {
                    figures.push(image);
                },
                Err(error) => {
                    proof {
                        counts_after_push(views.take(i as int), pieces@[i as int]@);
                        assert(views.take(i + 1) == views.take(i as int).push(pieces@[i as int]@));
                    }
                    return Err(SlidesError::Diagram(error));
                },
            }
        }
        i += 1;
    }
    assert(views.take(pieces.len() as int) == views);
    let bytes = join(pieces.as_slice(), figures.as_slice());
    Ok(bytes)
}

} // verus!
