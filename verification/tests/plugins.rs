use mdslides::plugins::slides::SlideAdapter;
use mdslides::plugins::syntax::SyntaxHighlighter;

#[test]
fn first_slide_opens_without_closing() {
    let mut adapter = SlideAdapter::new();
    assert_eq!(adapter.enter(1, "Title"), "<section>\n<h1>\n");
    assert_eq!(adapter.exit(1), "</h1>\n");
}

#[test]
fn next_slide_closes_the_one_before() {
    let mut adapter = SlideAdapter::new();
    adapter.enter(1, "One");
    adapter.exit(1);
    assert_eq!(adapter.enter(2, "Two"), "</section>\n<section>\n<h2>\n");
    assert_eq!(adapter.exit(2), "</h2>\n");
}

#[test]
fn deeper_heading_stays_inside_the_slide() {
    let mut adapter = SlideAdapter::new();
    adapter.enter(1, "One");
    adapter.exit(1);
    assert_eq!(adapter.enter(3, "Detail"), "<h3>\n");
    assert_eq!(adapter.exit(3), "</h3>\n");
    assert_eq!(adapter.enter(6, "Notes"), "<h6>\n");
    assert_eq!(adapter.exit(6), "</h6>\n");
}

#[test]
fn notes_open_an_aside_that_the_next_slide_closes() {
    let mut adapter = SlideAdapter::new();
    adapter.enter(2, "One");
    adapter.exit(2);
    assert_eq!(adapter.enter(3, "Notes"), "<aside class=\"notes\">\n<h3>\n");
    assert_eq!(adapter.exit(3), "</h3>\n");
    assert_eq!(adapter.enter(1, "Two"), "</aside>\n</section>\n<section>\n<h1>\n");
    adapter.exit(1);
    assert_eq!(adapter.enter(1, "Three"), "</section>\n<section>\n<h1>\n");
}

#[test]
fn notes_before_the_first_slide_stay_open() {
    let mut adapter = SlideAdapter::new();
    assert_eq!(adapter.enter(3, "Notes"), "<aside class=\"notes\">\n<h3>\n");
    adapter.exit(3);
    assert_eq!(adapter.enter(1, "One"), "<section>\n<h1>\n");
    adapter.exit(1);
    assert_eq!(adapter.enter(1, "Two"), "</aside>\n</section>\n<section>\n<h1>\n");
}

#[test]
fn notes_heading_of_another_level_is_a_heading() {
    let mut adapter = SlideAdapter::new();
    assert_eq!(adapter.enter(2, "Notes"), "<section>\n<h2>\n");
    adapter.exit(2);
    assert_eq!(adapter.enter(4, "Notes"), "<h4>\n");
}

#[test]
fn hidden_heading_is_put_in_a_comment() {
    let mut adapter = SlideAdapter::new();
    adapter.enter(1, "One");
    adapter.exit(1);
    assert_eq!(adapter.enter(2, "NO_HEADING"), "</section>\n<section>\n<!-- \n");
    assert_eq!(adapter.exit(2), " -->\n");
    assert_eq!(adapter.exit(2), "</h2>\n");
    assert_eq!(adapter.enter(3, "NO_HEADING"), "<!-- \n");
    assert_eq!(adapter.enter(3, "Shown"), "<h3>\n");
    assert_eq!(adapter.exit(3), "</h3>\n");
}

#[test]
fn level_is_written_in_decimal() {
    let mut adapter = SlideAdapter::new();
    assert_eq!(adapter.enter(0, "Zero"), "<section>\n<h0>\n");
    assert_eq!(adapter.exit(9), "</h9>\n");
    assert_eq!(adapter.enter(10, "x"), "<h10>\n");
    assert_eq!(adapter.exit(99), "</h99>\n");
    assert_eq!(adapter.enter(100, "x"), "<h100>\n");
    assert_eq!(adapter.exit(207), "</h207>\n");
    assert_eq!(adapter.exit(255), "</h255>\n");
}

#[test]
fn pre_tag_is_plain() {
    assert_eq!(SyntaxHighlighter::new().pre_tag(), "<pre>\n");
}

#[test]
fn code_tag_names_the_language() {
    let highlighter = SyntaxHighlighter::new();
    assert_eq!(
        highlighter.code_tag(Some("language-rust")),
        "<code data-trim data-noescape class=\"rust\">\n"
    );
    assert_eq!(
        highlighter.code_tag(Some("language-")),
        "<code data-trim data-noescape class=\"\">\n"
    );
    assert_eq!(
        highlighter.code_tag(Some("language-language-c")),
        "<code data-trim data-noescape class=\"language-c\">\n"
    );
}

#[test]
fn code_tag_without_language_has_empty_class() {
    let highlighter = SyntaxHighlighter::new();
    assert_eq!(highlighter.code_tag(None), "<code data-trim data-noescape class=\"\">\n");
    assert_eq!(
        highlighter.code_tag(Some("rust")),
        "<code data-trim data-noescape class=\"\">\n"
    );
    assert_eq!(
        highlighter.code_tag(Some("x language-rust")),
        "<code data-trim data-noescape class=\"\">\n"
    );
}

#[test]
fn highlighted_code_is_kept_as_it_is() {
    let highlighter = SyntaxHighlighter::new();
    assert_eq!(highlighter.highlighted("let x = 1 < 2;"), "let x = 1 < 2;\n");
    assert_eq!(highlighter.highlighted(""), "\n");
}
