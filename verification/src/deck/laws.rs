//! What holds of a whole chapter: where its delimiters stand, and what a
//! chapter with one diagram block is turned into.

use vstd::prelude::*;
use vstd::utf8::encode_utf8;
use crate::text::replaced;
use crate::deck::{
    after_line,
    after_lines,
    after_lines_chains,
    closes_fence,
    deck_bytes,
    diagram_block_becomes_one_piece,
    diagram_count,
    heading_count,
    initial_deck,
    merged,
    is_heading,
    one_delimiter_between_headings,
    opens_diagram,
    block_text,
    piece_bytes,
    pieces_of,
    DeckState,
    PieceView,
};

verus! {

/// Whether `piece` is a line that begins like a heading of level 1 or 2.
pub open spec fn is_heading_piece(piece: PieceView) -> bool {
    piece matches PieceView::Line(line) && is_heading(line)
}

/// What holds at position `at` of well-placed pieces. A delimiter is
/// directly followed by a heading, and a heading was put out before it. A
/// heading has a delimiter directly before it exactly if a heading was put
/// out before it.
pub open spec fn placed_at(pieces: Seq<PieceView>, at: int) -> bool {
    &&& pieces[at] is Delimiter ==> at + 1 < pieces.len() && is_heading_piece(pieces[at + 1])
        && heading_count(pieces.take(at)) > 0
    &&& is_heading_piece(pieces[at]) ==> (heading_count(pieces.take(at)) > 0 <==> at > 0
        && pieces[at - 1] is Delimiter)
}

/// Every delimiter of `pieces` stands directly before a heading that is not
/// the first, and every heading but the first has one directly before it.
pub open spec fn well_placed(pieces: Seq<PieceView>) -> bool {
    forall|at: int| 0 <= at < pieces.len() ==> #[trigger] placed_at(pieces, at)
}

/// The pieces of lines that are all put out as they are.
pub open spec fn line_pieces(lines: Seq<Seq<char>>) -> Seq<PieceView> {
    Seq::new(lines.len(), |i: int| PieceView::Line(lines[i]))
}

/// The bytes of `lines`, each with a line feed after it.
pub open spec fn lines_bytes(lines: Seq<Seq<char>>) -> Seq<u8>
    decreases lines.len(),
{
    if lines.len() == 0 {
        Seq::empty()
    } else {
        lines_bytes(lines.drop_last()) + encode_utf8(lines.last() + "\n"@)
    }
}

/// The figure container around the rendered image `image`.
pub open spec fn figure_bytes(image: Seq<u8>) -> Seq<u8> {
    encode_utf8("<figure>\n"@) + image + encode_utf8("</figure>\n"@)
}

/// Whether `lines` are plain: none opens a diagram block and none begins
/// like a heading.
pub open spec fn plain_lines(lines: Seq<Seq<char>>) -> bool {
    forall|k: int| 0 <= k < lines.len() ==> !opens_diagram(#[trigger] lines[k]) && !is_heading(
        lines[k],
    )
}

/// The first pieces of a longer sequence hold the headings of that many
/// pieces of the shorter one.
proof fn take_of_push(pieces: Seq<PieceView>, piece: PieceView, at: int)
    requires
        0 <= at <= pieces.len(),
    ensures
        pieces.push(piece).take(at) == pieces.take(at),
        pieces.push(piece).take(pieces.len() as int) == pieces,
{
}

/// One more piece that is no delimiter, and no heading unless it is the
/// first, keeps the pieces well placed.
proof fn push_keeps_placed(pieces: Seq<PieceView>, piece: PieceView)
    requires
        well_placed(pieces),
        !(piece is Delimiter),
        is_heading_piece(piece) ==> heading_count(pieces) == 0,
    ensures
        well_placed(pieces.push(piece)),
{
    let after = pieces.push(piece);
    let n = pieces.len() as int;
    assert forall|at: int| 0 <= at < after.len() implies #[trigger] placed_at(after, at) by {
        take_of_push(pieces, piece, if at <= n { at } else { n });
        if at < n {
            assert(placed_at(pieces, at));
            assert(after[at] == pieces[at]);
            if at + 1 < n {
                assert(after[at + 1] == pieces[at + 1]);
            }
            if at > 0 {
                assert(after[at - 1] == pieces[at - 1]);
            }
        } else {
            if n > 0 {
                assert(placed_at(pieces, n - 1));
                assert(after[n - 1] == pieces[n - 1]);
            }
        }
    }
}

/// A delimiter and a heading after earlier headings keep the pieces well
/// placed.
proof fn delimiter_and_heading_keep_placed(pieces: Seq<PieceView>, line: Seq<char>)
    requires
        well_placed(pieces),
        heading_count(pieces) > 0,
        is_heading(line),
    ensures
        well_placed(pieces.push(PieceView::Delimiter).push(PieceView::Line(line))),
{
    let mid = pieces.push(PieceView::Delimiter);
    let after = mid.push(PieceView::Line(line));
    let n = pieces.len() as int;
    crate::deck::counts_after_push(pieces, PieceView::Delimiter);
    assert forall|at: int| 0 <= at < after.len() implies #[trigger] placed_at(after, at) by {
        if at < n {
            assert(placed_at(pieces, at));
            assert(after.take(at) == pieces.take(at));
            assert(after[at] == pieces[at]);
            if at + 1 < n {
                assert(after[at + 1] == pieces[at + 1]);
            }
            if at > 0 {
                assert(after[at - 1] == pieces[at - 1]);
            }
        } else if at == n {
            assert(after.take(n) == pieces);
        } else {
            assert(after.take(n + 1) == mid);
        }
    }
}

/// In the slides of every chapter, each delimiter stands directly before a
/// heading that is not the first, the first heading has no delimiter before
/// it, and every later heading has exactly one directly before it.
pub proof fn delimiters_stand_before_later_headings(lines: Seq<Seq<char>>)
    ensures
        well_placed(pieces_of(lines)),
    decreases lines.len(),
{
    if lines.len() == 0 {
    } else {
        let head = lines.drop_last();
        delimiters_stand_before_later_headings(head);
        one_delimiter_between_headings(head);
        let before = after_lines(initial_deck(), head);
        let line = lines.last();
        if before.collecting is Some {
            if closes_fence(line) {
                push_keeps_placed(before.pieces, PieceView::Diagram(before.collecting->0));
            }
        } else if opens_diagram(line) {
        } else if is_heading(line) && !before.first {
            delimiter_and_heading_keep_placed(before.pieces, line);
        } else {
            push_keeps_placed(before.pieces, PieceView::Line(line));
        }
    }
}

/// Outside a diagram block, plain lines are put out as they are, one piece
/// each, and change nothing else.
pub proof fn plain_lines_are_kept(state: DeckState, lines: Seq<Seq<char>>)
    requires
        state.collecting is None,
        plain_lines(lines),
    ensures
        after_lines(state, lines) == (DeckState {
            pieces: state.pieces + line_pieces(lines),
            ..state
        }),
    decreases lines.len(),
{
    if lines.len() == 0 {
        assert(state.pieces + line_pieces(lines) == state.pieces);
    } else {
        let head = lines.drop_last();
        assert forall|k: int| 0 <= k < head.len() implies !opens_diagram(#[trigger] head[k])
            && !is_heading(head[k]) by {
            assert(head[k] == lines[k]);
        }
        plain_lines_are_kept(state, head);
        assert(!opens_diagram(lines[lines.len() - 1]) && !is_heading(lines[lines.len() - 1]));
        assert((state.pieces + line_pieces(head)).push(PieceView::Line(lines.last()))
            == state.pieces + line_pieces(lines));
    }
}

/// A chapter of plain lines around one diagram block is turned into the
/// lines before the block, one diagram, and the lines after it: neither
/// the fences nor a line of the block is put out as a line.
pub proof fn pieces_around_one_diagram(
    before: Seq<Seq<char>>,
    open: Seq<char>,
    body: Seq<Seq<char>>,
    close: Seq<char>,
    rest: Seq<Seq<char>>,
)
    requires
        plain_lines(before),
        opens_diagram(open),
        forall|k: int| 0 <= k < body.len() ==> !closes_fence(#[trigger] body[k]),
        closes_fence(close),
        plain_lines(rest),
    ensures
        pieces_of(before + (seq![open] + body + seq![close]) + rest) == line_pieces(before).push(
            PieceView::Diagram(block_text(body)),
        ) + line_pieces(rest),
{
    let start = initial_deck();
    let block = seq![open] + body + seq![close];
    plain_lines_are_kept(start, before);
    let at_block = after_lines(start, before);
    assert(start.pieces + line_pieces(before) == line_pieces(before));
    diagram_block_becomes_one_piece(at_block, open, body, close);
    after_lines_chains(start, before, block);
    let after_block = after_lines(start, before + block);
    after_lines_chains(start, before + block, rest);
    plain_lines_are_kept(after_block, rest);
}

/// The bytes of pieces that end in plain lines end in the bytes of those
/// lines.
proof fn bytes_of_trailing_lines(
    pieces: Seq<PieceView>,
    lines: Seq<Seq<char>>,
    figures: Seq<Seq<u8>>,
)
    ensures
        deck_bytes(pieces + line_pieces(lines), figures) == deck_bytes(pieces, figures)
            + lines_bytes(lines),
    decreases lines.len(),
{
    if lines.len() == 0 {
        assert(pieces + line_pieces(lines) == pieces);
        assert(deck_bytes(pieces, figures) + Seq::<u8>::empty() == deck_bytes(pieces, figures));
    } else {
        let head = lines.drop_last();
        let all = pieces + line_pieces(lines);
        assert(all.drop_last() == pieces + line_pieces(head));
        assert(all.last() == PieceView::Line(lines.last()));
        bytes_of_trailing_lines(pieces, head, figures);
        assert(deck_bytes(pieces, figures) + lines_bytes(head) + encode_utf8(
            lines.last() + "\n"@,
        ) == deck_bytes(pieces, figures) + (lines_bytes(head) + encode_utf8(
            lines.last() + "\n"@,
        )));
    }
}

/// Plain lines hold no diagram.
proof fn lines_hold_no_diagram(lines: Seq<Seq<char>>)
    ensures
        diagram_count(line_pieces(lines)) == 0,
    decreases lines.len(),
{
    if lines.len() > 0 {
        assert(line_pieces(lines).drop_last() == line_pieces(lines.drop_last()));
        lines_hold_no_diagram(lines.drop_last());
    }
}

/// The slide file of a chapter of plain lines around one diagram block:
/// the lines before the block, one figure container around the image that
/// the renderer gave for the block, and the lines after it.
pub proof fn bytes_around_one_diagram(
    before: Seq<Seq<char>>,
    open: Seq<char>,
    body: Seq<Seq<char>>,
    close: Seq<char>,
    rest: Seq<Seq<char>>,
    figures: Seq<Seq<u8>>,
)
    requires
        plain_lines(before),
        opens_diagram(open),
        forall|k: int| 0 <= k < body.len() ==> !closes_fence(#[trigger] body[k]),
        closes_fence(close),
        plain_lines(rest),
    ensures
        diagram_count(pieces_of(before + (seq![open] + body + seq![close]) + rest)) == 1,
        deck_bytes(pieces_of(before + (seq![open] + body + seq![close]) + rest), figures)
            == lines_bytes(before) + figure_bytes(figures[0]) + lines_bytes(rest),
{
    pieces_around_one_diagram(before, open, body, close, rest);
    let diagram = PieceView::Diagram(block_text(body));
    let upto = line_pieces(before).push(diagram);
    lines_hold_no_diagram(before);
    crate::deck::counts_after_push(line_pieces(before), diagram);
    assert(upto.drop_last() == line_pieces(before));
    assert(upto.last() == diagram);
    bytes_of_trailing_lines(Seq::empty(), before, figures);
    assert(Seq::<PieceView>::empty() + line_pieces(before) == line_pieces(before));
    assert(deck_bytes(Seq::empty(), figures) == Seq::<u8>::empty());
    assert(Seq::<u8>::empty() + lines_bytes(before) == lines_bytes(before));
    assert(piece_bytes(diagram, figures[0]) == figure_bytes(figures[0]));
    bytes_of_trailing_lines(upto, rest, figures);
    diagram_count_with_trailing_lines(upto, rest);
}

/// Plain lines after some pieces add no diagram.
proof fn diagram_count_with_trailing_lines(pieces: Seq<PieceView>, lines: Seq<Seq<char>>)
    ensures
        diagram_count(pieces + line_pieces(lines)) == diagram_count(pieces),
    decreases lines.len(),
{
    if lines.len() == 0 {
        assert(pieces + line_pieces(lines) == pieces);
    } else {
        let all = pieces + line_pieces(lines);
        assert(all.drop_last() == pieces + line_pieces(lines.drop_last()));
        assert(all.last() == PieceView::Line(lines.last()));
        diagram_count_with_trailing_lines(pieces, lines.drop_last());
    }
}

/// With the bare template `$CONTENT`, the merged text is the chapter's own
/// text, whatever the title.
pub proof fn bare_template_gives_the_chapter(title: Seq<char>, content: Seq<char>)
    ensures
        merged("$CONTENT"@, title, content) == content,
{
    reveal_strlit("$CONTENT");
    reveal_strlit("$TITLE");
    let template = "$CONTENT"@;
    let token = "$TITLE"@;
    assert(template.len() == 8 && token.len() == 6);
    assert forall|k: int| 0 <= k < template.len() implies !token.is_prefix_of(
        #[trigger] template.skip(k),
    ) by {
        let tail = template.skip(k);
        if token.is_prefix_of(tail) {
            assert(tail.subrange(0, 6)[0] == token[0]);
            assert(tail[0] == template[k]);
            assert(k == 0);
            assert(tail.subrange(0, 6)[1] == token[1]);
            assert(tail[1] == template[1]);
        }
    }
    text_without_match_is_kept(template, token, title, 0);
    assert(template.skip(0) == template);
    let rest = template.skip(8);
    assert(template.is_prefix_of(template)) by {
        assert(template.subrange(0, 8) == template);
    }
    assert(rest.len() == 0);
    assert(!template.is_prefix_of(rest));
    assert(replaced(rest, template, content) == rest);
    assert(content + rest == content);
}

/// Text in which `from` stands nowhere from position `at` on is kept from
/// there on.
proof fn text_without_match_is_kept(s: Seq<char>, from: Seq<char>, to: Seq<char>, at: int)
    requires
        0 <= at <= s.len(),
        from.len() > 0,
        forall|k: int| at <= k < s.len() ==> !from.is_prefix_of(#[trigger] s.skip(k)),
    ensures
        replaced(s.skip(at), from, to) == s.skip(at),
    decreases s.len() - at,
{
    let tail = s.skip(at);
    if at == s.len() {
    } else {
        assert(!from.is_prefix_of(s.skip(at)));
        assert(tail.skip(1) == s.skip(at + 1));
        text_without_match_is_kept(s, from, to, at + 1);
        assert(seq![tail[0]] + tail.skip(1) == tail);
    }
}

} // verus!
