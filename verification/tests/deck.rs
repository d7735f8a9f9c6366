use mdslides::deck::{assemble, slide_pieces, SlidePiece};
use mdslides::{generate_deck, SlidesError};

fn line(s: &str) -> SlidePiece {
    SlidePiece::Line(s.to_string())
}

fn deck_text(content: &str, template: &str, title: &str) -> String {
    String::from_utf8(generate_deck(content, template, title).unwrap()).unwrap()
}

fn delimiters(pieces: &[SlidePiece]) -> usize {
    pieces.iter().filter(|piece| **piece == SlidePiece::Delimiter).count()
}

#[test]
fn delimiter_stands_before_every_heading_but_the_first() {
    let pieces = slide_pieces("# One\ntext\n## Two\nmore\n# Three\n");
    assert_eq!(
        pieces,
        vec![
            line("# One"),
            line("text"),
            SlidePiece::Delimiter,
            line("## Two"),
            line("more"),
            SlidePiece::Delimiter,
            line("# Three"),
        ]
    );
    assert_eq!(delimiters(&pieces), 2);
}

#[test]
fn chapter_without_headings_has_no_delimiter() {
    let pieces = slide_pieces("just\nsome\ntext\n");
    assert_eq!(pieces, vec![line("just"), line("some"), line("text")]);
    assert_eq!(delimiters(&pieces), 0);
}

#[test]
fn single_heading_has_no_delimiter() {
    assert_eq!(slide_pieces("intro\n# Only\n"), vec![line("intro"), line("# Only")]);
}

#[test]
fn heading_needs_its_space_and_its_level() {
    let pieces = slide_pieces("#One\n### Three\n #Two\n#\n##\n# \n## \n");
    assert_eq!(
        pieces,
        vec![
            line("#One"),
            line("### Three"),
            line(" #Two"),
            line("#"),
            line("##"),
            line("# "),
            SlidePiece::Delimiter,
            line("## "),
        ]
    );
}

#[test]
fn diagram_block_becomes_one_diagram() {
    let pieces = slide_pieces("before\n```dot process\ndigraph { a -> b }\n# not a heading\n```\nafter\n");
    assert_eq!(
        pieces,
        vec![
            line("before"),
            SlidePiece::Diagram("digraph { a -> b }\n# not a heading\n".to_string()),
            line("after"),
        ]
    );
}

#[test]
fn empty_diagram_block_has_empty_source() {
    assert_eq!(
        slide_pieces("```dot process\n```\n"),
        vec![SlidePiece::Diagram(String::new())]
    );
}

#[test]
fn diagram_needs_tag_and_keyword() {
    let text = "```dot\ngraph {}\n```\n```rust process\nfn f() {}\n```\n";
    assert_eq!(
        slide_pieces(text),
        vec![
            line("```dot"),
            line("graph {}"),
            line("```"),
            line("```rust process"),
            line("fn f() {}"),
            line("```"),
        ]
    );
}

#[test]
fn keyword_may_stand_anywhere_after_the_tag() {
    assert_eq!(
        slide_pieces("```dotty,preprocessed\nx\n```\n"),
        vec![SlidePiece::Diagram("x\n".to_string())]
    );
    assert_eq!(slide_pieces(" ```dot process\n"), vec![line(" ```dot process")]);
}

#[test]
fn only_a_bare_fence_closes_a_diagram() {
    let pieces = slide_pieces("```dot process\n``` \n ```\n````\n```dot process\n```\nend\n");
    assert_eq!(
        pieces,
        vec![
            SlidePiece::Diagram("``` \n ```\n````\n```dot process\n".to_string()),
            line("end"),
        ]
    );
}

#[test]
fn unclosed_diagram_swallows_the_rest() {
    assert_eq!(
        slide_pieces("# A\n```dot process\ndigraph {}\n# B\n"),
        vec![line("# A")]
    );
}

#[test]
fn heading_inside_a_diagram_counts_for_nothing() {
    let pieces = slide_pieces("```dot process\n# Hidden\n```\n# First\n# Second\n");
    assert_eq!(
        pieces,
        vec![
            SlidePiece::Diagram("# Hidden\n".to_string()),
            line("# First"),
            SlidePiece::Delimiter,
            line("# Second"),
        ]
    );
}

#[test]
fn lines_end_at_line_feeds() {
    assert_eq!(slide_pieces(""), vec![]);
    assert_eq!(slide_pieces("\n"), vec![line("")]);
    assert_eq!(slide_pieces("a"), vec![line("a")]);
    assert_eq!(slide_pieces("a\n\nb"), vec![line("a"), line(""), line("b")]);
    assert_eq!(slide_pieces("a\r\nb\r\n"), vec![line("a"), line("b")]);
    assert_eq!(slide_pieces("a\rb\r"), vec![line("a\rb\r")]);
    assert_eq!(slide_pieces("a\r\r\n\r\n"), vec![line("a\r"), line("")]);
}

#[test]
fn fence_with_carriage_return_closes_a_diagram() {
    assert_eq!(
        slide_pieces("```dot process\r\nx\r\n```\r\n"),
        vec![SlidePiece::Diagram("x\n".to_string())]
    );
}

#[test]
fn assemble_writes_lines_delimiters_and_figures() {
    let pieces = [
        line("# A"),
        SlidePiece::Diagram("digraph {}\n".to_string()),
        SlidePiece::Delimiter,
        line("# B"),
        SlidePiece::Diagram("graph {}\n".to_string()),
    ];
    let figures = [b"<svg>1</svg>\n".to_vec(), vec![0xff, 0x00]];
    let mut expected = b"# A\n<figure>\n<svg>1</svg>\n</figure>\n---\n# B\n<figure>\n".to_vec();
    expected.extend_from_slice(&[0xff, 0x00]);
    expected.extend_from_slice(b"</figure>\n");
    assert_eq!(assemble(&pieces, &figures), Some(expected));
}

#[test]
fn assemble_wants_one_figure_per_diagram() {
    let pieces = [line("a"), SlidePiece::Diagram("x".to_string())];
    assert_eq!(assemble(&pieces, &[]), None);
    assert_eq!(assemble(&pieces, &[vec![1], vec![2]]), None);
    assert_eq!(assemble(&[line("a")], &[vec![1]]), None);
    assert_eq!(assemble(&[], &[]), Some(vec![]));
}

#[test]
fn assemble_encodes_text_as_utf8() {
    assert_eq!(
        assemble(&[line("é✓")], &[]),
        Some("é✓\n".as_bytes().to_vec())
    );
}

#[test]
fn deck_is_the_template_with_title_and_content() {
    let text = deck_text(
        "# One\nbody\n## Two\n",
        "<title>$TITLE</title>\n<section>\n$CONTENT\n</section>",
        "Chapter",
    );
    assert_eq!(
        text,
        "<title>Chapter</title>\n<section>\n# One\nbody\n---\n## Two\n\n</section>\n"
    );
}

#[test]
fn deck_with_n_headings_has_n_minus_one_delimiters() {
    for n in 0..6 {
        let mut content = String::new();
        for i in 0..n {
            content.push_str(&format!("# Slide {}\ntext\n", i));
        }
        let text = deck_text(&content, "$CONTENT", "T");
        let found = text.lines().filter(|l| *l == "---").count();
        assert_eq!(found, if n == 0 { 0 } else { n - 1 });
    }
}

#[test]
fn every_token_of_the_slide_template_is_replaced() {
    assert_eq!(deck_text("c", "$TITLE $CONTENT $TITLE $CONTENT", "t"), "t c t c\n");
}

#[test]
fn title_is_put_in_before_the_content() {
    assert_eq!(deck_text("chapter", "$TITLE", "$CONTENT"), "chapter\n");
    assert_eq!(deck_text("$TITLE", "$CONTENT", "t"), "$TITLE\n");
}

#[test]
fn headings_of_the_template_count_too() {
    assert_eq!(deck_text("# Mine", "# Theirs\n$CONTENT", "t"), "# Theirs\n---\n# Mine\n");
}

#[test]
fn deck_ends_every_line_with_a_line_feed() {
    assert_eq!(deck_text("a\r\nb", "$CONTENT", "t"), "a\nb\n");
    assert_eq!(deck_text("", "", "t"), "");
}

#[test]
fn diagram_is_rendered_or_refused() {
    let result = generate_deck(
        "before\n```dot process\ndigraph { a -> b }\n```\nafter\n",
        "$CONTENT",
        "t",
    );
    match result {
        Ok(bytes) => {
            let text = String::from_utf8_lossy(&bytes).to_string();
            assert!(text.starts_with("before\n<figure>\n"));
            assert!(text.ends_with("</figure>\nafter\n"));
            assert_eq!(text.matches("<figure>\n").count(), 1);
            assert!(!text.contains("digraph { a -> b }"));
            assert!(!text.contains("```"));
        }
        Err(error) => assert!(matches!(error, SlidesError::Diagram(_))),
    }
}

#[test]
fn diagram_that_is_no_graph_is_refused() {
    let result = generate_deck("```dot process\nthis is { no graph\n```\n", "$CONTENT", "t");
    assert!(matches!(result, Err(SlidesError::Diagram(_))));
}

#[test]
fn renderer_is_asked_for_svg() {
    assert_eq!(mdslides::deck::renderer_arguments(), vec!["-Tsvg".to_string()]);
}

fn is_heading(piece: &SlidePiece) -> bool {
    matches!(piece, SlidePiece::Line(text) if text.starts_with("# ") || text.starts_with("## "))
}

#[test]
fn delimiters_stand_directly_before_later_headings() {
    let text = "intro\n# A\ntext\n```dot process\n# inside\n```\n## B\n## C\n---\nlast\n# D\n";
    let pieces = slide_pieces(text);
    let mut headings_before = 0;
    for (at, piece) in pieces.iter().enumerate() {
        if *piece == SlidePiece::Delimiter {
            assert!(at + 1 < pieces.len() && is_heading(&pieces[at + 1]));
            assert!(headings_before > 0);
        }
        if is_heading(piece) {
            let after_delimiter = at > 0 && pieces[at - 1] == SlidePiece::Delimiter;
            assert_eq!(after_delimiter, headings_before > 0);
            headings_before += 1;
        }
    }
    assert_eq!(headings_before, 4);
    assert_eq!(delimiters(&pieces), 3);
    assert_eq!(pieces[8], line("---"));
}

#[test]
fn chapter_around_one_diagram_keeps_its_lines_and_gets_one_figure() {
    let text = "one\ntwo\n```dot process\ndigraph { a -> b }\nsecond line\n```\nthree\n";
    let pieces = slide_pieces(text);
    assert_eq!(
        pieces,
        vec![
            line("one"),
            line("two"),
            SlidePiece::Diagram("digraph { a -> b }\nsecond line\n".to_string()),
            line("three"),
        ]
    );
    let deck = assemble(&pieces, &[b"<svg/>".to_vec()]).unwrap();
    assert_eq!(deck, b"one\ntwo\n<figure>\n<svg/></figure>\nthree\n".to_vec());
    let written = String::from_utf8(deck).unwrap();
    for gone in ["```dot process", "digraph { a -> b }", "second line", "```"] {
        assert!(written.lines().all(|l| l != gone));
    }
}
