use mdslides::book::{book_config, chapter_jobs, select_config, BookConfig, BookSection, ChapterJob};
use mdslides::{SlidesError, IndexEntry};

fn config(title: &str, src: &str) -> BookConfig {
    BookConfig { title: title.to_string(), src: src.to_string() }
}

#[test]
fn config_is_read_from_the_book_table() {
    let text = "[book]\ntitle = \"My Book\"\nsrc = \"chapters\"\nauthors = [\"A\"]\n\n[output.html]\ntitle = \"Other\"\n";
    assert_eq!(book_config(text).unwrap(), config("My Book", "chapters"));
}

#[test]
fn config_keeps_text_beyond_ascii() {
    let text = "[book]\ntitle = \"Größe ✓\"\nsrc = \"\"\n";
    assert_eq!(book_config(text).unwrap(), config("Größe ✓", ""));
}

#[test]
fn config_without_book_table_is_rejected() {
    assert!(matches!(book_config(""), Err(SlidesError::NoBookTable)));
    assert!(matches!(book_config("title = \"T\"\nsrc = \"s\"\n"), Err(SlidesError::NoBookTable)));
    assert!(matches!(book_config("book = \"text\"\n"), Err(SlidesError::NoBookTable)));
}

#[test]
fn config_without_title_is_rejected() {
    assert!(matches!(book_config("[book]\nsrc = \"s\"\n"), Err(SlidesError::NoTitleField)));
    assert!(matches!(book_config("[book]\n"), Err(SlidesError::NoTitleField)));
    assert!(matches!(book_config("[book]\ntitle = 3\nsrc = \"s\"\n"), Err(SlidesError::NoTitleField)));
}

#[test]
fn config_without_src_is_rejected() {
    assert!(matches!(book_config("[book]\ntitle = \"T\"\n"), Err(SlidesError::NoSrcField)));
    assert!(matches!(
        book_config("[book]\ntitle = \"T\"\nsrc = [\"s\"]\n"),
        Err(SlidesError::NoSrcField)
    ));
    assert!(matches!(
        book_config("[book]\ntitle = \"T\"\n[book.src]\nx = 1\n"),
        Err(SlidesError::NoSrcField)
    ));
}

#[test]
fn config_that_is_no_toml_is_rejected() {
    match book_config("[book\ntitle = ") {
        Err(SlidesError::FormatError(error)) => assert!(!error.message().is_empty()),
        other => panic!("unexpected: {:?}", other),
    }
    assert!(matches!(book_config("[book]\ntitle = \"T\"\ntitle = \"U\"\n"), Err(SlidesError::FormatError(_))));
}

#[test]
fn select_config_names_the_first_thing_missing() {
    assert!(matches!(select_config(None), Err(SlidesError::NoBookTable)));
    assert!(matches!(
        select_config(Some(BookSection { title: None, src: None })),
        Err(SlidesError::NoTitleField)
    ));
    assert!(matches!(
        select_config(Some(BookSection { title: None, src: Some("s".to_string()) })),
        Err(SlidesError::NoTitleField)
    ));
    assert!(matches!(
        select_config(Some(BookSection { title: Some("t".to_string()), src: None })),
        Err(SlidesError::NoSrcField)
    ));
    assert_eq!(
        select_config(Some(BookSection {
            title: Some("t".to_string()),
            src: Some("s".to_string())
        }))
        .unwrap(),
        config("t", "s")
    );
}

#[test]
fn jobs_are_the_chapters_with_a_file() {
    let entries = [
        IndexEntry::Heading("H".to_string()),
        IndexEntry::Chapter { title: "One".to_string(), path: "./one.md".to_string() },
        IndexEntry::SubHeading("S".to_string()),
        IndexEntry::Chapter { title: "Soon".to_string(), path: String::new() },
        IndexEntry::Chapter { title: "Two".to_string(), path: "part/two.md".to_string() },
        IndexEntry::Chapter { title: "Raw".to_string(), path: "raw.txt".to_string() },
    ];
    assert_eq!(
        chapter_jobs(&entries),
        vec![
            ChapterJob {
                title: "One".to_string(),
                source: "./one.md".to_string(),
                output: "./one.html".to_string()
            },
            ChapterJob {
                title: "Two".to_string(),
                source: "part/two.md".to_string(),
                output: "part/two.html".to_string()
            },
            ChapterJob {
                title: "Raw".to_string(),
                source: "raw.txt".to_string(),
                output: "raw.txt".to_string()
            },
        ]
    );
    assert_eq!(chapter_jobs(&[]), vec![]);
}
