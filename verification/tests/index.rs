use mdslides::{generate_index, load_book, IndexEntry};

#[test]
fn check_index() {
    let index_contents = [
        IndexEntry::Heading("Heading".to_owned()),
        IndexEntry::SubHeading("SubHeading".to_owned()),
        IndexEntry::Chapter {
            title: "Link Title".to_owned(),
            path: "./test.md".to_owned(),
        },
        IndexEntry::SubHeading("SubHeading 2".to_owned()),
        IndexEntry::Chapter {
            title: "Link Title 2".to_owned(),
            path: "./test2.md".to_owned(),
        },
        IndexEntry::Chapter {
            title: "Link Title 3".to_owned(),
            path: String::new(),
        },
    ];
    let title = "My Title";
    let template = "<title>$TITLE</title>\n$INDEX";
    let output = generate_index(&index_contents, template, title);
    let output: &str = output.as_str();
    assert_eq!(
        output,
        "<title>My Title</title>\n\
        <h1>Heading</h1>\
        <h2>SubHeading</h2>\
        <ul>\
        <li><a href=\"./test.html\">Link Title</a></li>\
        </ul>\
        <h2>SubHeading 2</h2>\
        <ul>\
        <li><a href=\"./test2.html\">Link Title 2</a></li>\
        <li>Link Title 3</li>\
        </ul>"
    );
}

#[test]
fn check_book() {
    let summary_src = "\
    # Heading 0\n\
    \n\
    # Heading 1\n\
    \n\
    ## Subheading 1.1\n\
    \n\
    -   [Link 1](./link1.md)\n\
    -   [Link 2](./link2.md)\n\
    \n\
    ## Subheading 1.2\n\
    \n\
    -   [Link 3](./link3.md)\n\
    -   [Link 4](./link4.md)\n\
    \n\
    # Heading 2\n\
    \n\
    ## Subheading 2.1\n\
    \n\
    -   [Link 5](./link5.md)\n\
    -   [Link 6]()\n\
    ";
    let index_entries = load_book(summary_src).unwrap();
    assert_eq!(
        &index_entries,
        &[
            IndexEntry::Heading("Heading 1".to_string()),
            IndexEntry::SubHeading("Subheading 1.1".to_string()),
            IndexEntry::Chapter {
                title: "Link 1".to_string(),
                path: "./link1.md".to_string()
            },
            IndexEntry::Chapter {
                title: "Link 2".to_string(),
                path: "./link2.md".to_string()
            },
            IndexEntry::SubHeading("Subheading 1.2".to_string()),
            IndexEntry::Chapter {
                title: "Link 3".to_string(),
                path: "./link3.md".to_string()
            },
            IndexEntry::Chapter {
                title: "Link 4".to_string(),
                path: "./link4.md".to_string()
            },
            IndexEntry::Heading("Heading 2".to_string()),
            IndexEntry::SubHeading("Subheading 2.1".to_string()),
            IndexEntry::Chapter {
                title: "Link 5".to_string(),
                path: "./link5.md".to_string()
            },
            IndexEntry::Chapter {
                title: "Link 6".to_string(),
                path: String::new(),
            },
        ]
    );
}

fn chapter(title: &str, path: &str) -> IndexEntry {
    IndexEntry::Chapter {
        title: title.to_string(),
        path: path.to_string(),
    }
}

#[test]
fn outline_to_index_end_to_end() {
    let outline = "# Heading 1\n## Subheading 1.1\n- [Link 1](./link1.md)\n- [Link 2](./link2.md)\n";
    let entries = load_book(outline).unwrap();
    assert_eq!(
        entries,
        vec![
            IndexEntry::Heading("Heading 1".to_string()),
            IndexEntry::SubHeading("Subheading 1.1".to_string()),
            chapter("Link 1", "./link1.md"),
            chapter("Link 2", "./link2.md"),
        ]
    );
    let page = generate_index(&entries, "<title>$TITLE</title>$INDEX", "T");
    assert_eq!(
        page,
        "<title>T</title><h1>Heading 1</h1><h2>Subheading 1.1</h2><ul><li><a href=\"./link1.html\">Link 1</a></li><li><a href=\"./link2.html\">Link 2</a></li></ul>"
    );
}

#[test]
fn empty_outline_gives_empty_index() {
    assert_eq!(generate_index(&[], "[$INDEX]", "T"), "[]");
}

#[test]
fn placeholder_is_listed_without_anchor() {
    let page = generate_index(&[chapter("Soon", "")], "$INDEX", "T");
    assert_eq!(page, "<ul><li>Soon</li></ul>");
    assert!(!page.contains("href"));
}

#[test]
fn list_is_closed_before_a_heading_and_at_the_end() {
    let entries = [
        chapter("A", "a.md"),
        IndexEntry::Heading("H".to_string()),
        chapter("B", "b.md"),
        chapter("C", "c.md"),
        IndexEntry::SubHeading("S".to_string()),
    ];
    assert_eq!(
        generate_index(&entries, "$INDEX", ""),
        "<ul><li><a href=\"a.html\">A</a></li></ul><h1>H</h1><ul>\
         <li><a href=\"b.html\">B</a></li><li><a href=\"c.html\">C</a></li></ul><h2>S</h2>"
    );
}

#[test]
fn headings_in_a_row_open_no_list() {
    let entries = [
        IndexEntry::Heading("One".to_string()),
        IndexEntry::SubHeading("Two".to_string()),
        IndexEntry::SubHeading("Three".to_string()),
    ];
    assert_eq!(
        generate_index(&entries, "$INDEX", ""),
        "<h1>One</h1><h2>Two</h2><h2>Three</h2>"
    );
}

#[test]
fn only_the_md_extension_is_rewritten() {
    assert_eq!(mdslides::index::slide_file_name("./intro.md"), "./intro.html");
    assert_eq!(mdslides::index::slide_file_name("cmd/readme.md"), "cmd/readme.html");
    assert_eq!(mdslides::index::slide_file_name("notes.txt"), "notes.txt");
    assert_eq!(mdslides::index::slide_file_name("md"), "md");
    assert_eq!(mdslides::index::slide_file_name(".md"), ".html");
    assert_eq!(mdslides::index::slide_file_name("a.md.bak"), "a.md.bak");
    assert_eq!(mdslides::index::slide_file_name(""), "");
    assert_eq!(mdslides::index::slide_file_name("über.md"), "über.html");
}

#[test]
fn every_token_of_the_index_template_is_replaced() {
    let page = generate_index(
        &[IndexEntry::Heading("H".to_string())],
        "$TITLE|$INDEX|$TITLE|$INDEX",
        "Book",
    );
    assert_eq!(page, "Book|<h1>H</h1>|Book|<h1>H</h1>");
}

#[test]
fn title_token_inside_an_entry_is_replaced_too() {
    let page = generate_index(&[IndexEntry::Heading("About $TITLE".to_string())], "$INDEX", "X");
    assert_eq!(page, "<h1>About X</h1>");
}

#[test]
fn index_token_inside_the_title_is_kept() {
    let page = generate_index(&[], "$TITLE $INDEX", "$INDEX");
    assert_eq!(page, "$INDEX ");
}

#[test]
fn template_without_tokens_is_kept() {
    let page = generate_index(&[chapter("A", "a.md")], "plain $ TITLE", "T");
    assert_eq!(page, "plain $ TITLE");
}

#[test]
fn rendering_twice_gives_identical_pages() {
    let entries = [
        IndexEntry::Heading("H".to_string()),
        chapter("A", "a.md"),
        chapter("B", ""),
    ];
    let first = generate_index(&entries, "<t>$TITLE</t>$INDEX", "T");
    let second = generate_index(&entries, "<t>$TITLE</t>$INDEX", "T");
    assert_eq!(first.as_bytes(), second.as_bytes());
}

#[test]
fn text_beyond_ascii_is_kept() {
    let page = generate_index(&[chapter("Größe ✓", "größe.md")], "«$INDEX»", "T");
    assert_eq!(page, "«<ul><li><a href=\"größe.html\">Größe ✓</a></li></ul>»");
}

#[test]
fn token_is_found_right_after_a_broken_one() {
    assert_eq!(generate_index(&[], "$TITL$TITLE$$INDEX$INDE", "T"), "$TITLT$$INDE");
}

#[test]
fn page_has_one_anchor_for_every_chapter_with_a_file() {
    let entries = [
        IndexEntry::Heading("H".to_string()),
        chapter("A", "a.md"),
        chapter("Soon", ""),
        chapter("B", "b.txt"),
        IndexEntry::SubHeading("S".to_string()),
        chapter("Later", ""),
        chapter("C", "c.md"),
    ];
    let page = generate_index(&entries, "<body>$INDEX</body>", "T");
    assert_eq!(page.matches("href=\"").count(), 3);
    assert_eq!(page.matches("href=\"\"").count(), 0);
    assert!(page.contains("<li>Soon</li>"));
    assert!(page.contains("<li>Later</li>"));
    assert_eq!(page.matches("<li>").count(), 5);
    assert!(!page.contains('\n'));
}
