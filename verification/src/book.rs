//! The book as a whole: its configuration, and the chapters that are to be
//! turned into slides.

use vstd::prelude::*;
use crate::entry::{entry_views, EntryView, IndexEntry};
use crate::error::SlidesError;
use crate::index::{output_name, slide_file_name};

verus! {

/// `toml::map::Map`, the table of a TOML document, carried through unopened.
#[verifier::external_type_specification]
#[verifier::external_body]
#[verifier::reject_recursive_types(K)]
#[verifier::reject_recursive_types(V)]
pub struct ExTomlMap<K, V>(toml::map::Map<K, V>);

/// `toml::Value`, one value of a TOML document, carried through unopened.
#[verifier::external_type_specification]
#[verifier::external_body]
pub struct ExTomlValue(toml::Value);

/// The entries of a TOML table whose values are strings.
pub uninterp spec fn table_texts(table: toml::map::Map<String, toml::Value>) -> Map<
    Seq<char>,
    Seq<char>,
>;

/// The entries of a TOML table whose values are tables, each with the
/// string entries of that table.
pub uninterp spec fn table_sections(table: toml::map::Map<String, toml::Value>) -> Map<
    Seq<char>,
    Map<Seq<char>, Seq<char>>,
>;

/// The sections of the TOML document `text`, or `None` where `text` is not
/// a TOML document.
pub uninterp spec fn toml_sections(text: Seq<char>) -> Option<
    Map<Seq<char>, Map<Seq<char>, Seq<char>>>,
>;

/// What stands in a TOML table under a key.
enum Found<'a> {
    /// A string.
    Text(&'a str),
    /// A table.
    Table(&'a toml::map::Map<String, toml::Value>),
    /// A value of another kind, or nothing.
    Neither,
}

/// Reads a TOML document: `toml::from_str`, asked for a table. It fails
/// exactly where the text is not a TOML document, and otherwise returns
/// the table of that document.
#[verifier::external_body]
fn parse_toml(text: &str) -> (parsed: Result<toml::map::Map<String, toml::Value>, toml::de::Error>)
    ensures
        match parsed {
            Ok(table) => toml_sections(text@) == Some(table_sections(table)),
            Err(_) => toml_sections(text@) is None,
        },
{
    toml::from_str::<toml::Table>(text)
}

/// Looks a key up in a TOML table: `toml::map::Map::get`, which returns the
/// value under the key if there is one. A string or a table is handed out;
/// a value of any other kind is told apart from them and nothing more.
#[verifier::external_body]
fn lookup<'a>(table: &'a toml::map::Map<String, toml::Value>, key: &str) -> (found: Found<'a>)
    ensures
        match found {
            Found::Text(text) => table_texts(*table).contains_key(key@) && table_texts(
                *table,
            )[key@] == text@ && !table_sections(*table).contains_key(key@),
            Found::Table(inner) => table_sections(*table).contains_key(key@) && table_sections(
                *table,
            )[key@] == table_texts(*inner) && !table_texts(*table).contains_key(key@),
            Found::Neither => !table_texts(*table).contains_key(key@) && !table_sections(
                *table,
            ).contains_key(key@),
        },
{
    match table.get(key) {
        Some(toml::Value::String(text)) => Found::Text(text.as_str()),
        Some(toml::Value::Table(inner)) => Found::Table(inner),
        _ => Found::Neither,
    }
}

/// What a book's configuration says of the book.
#[derive(Debug, Clone, PartialEq, Eq)]
pub struct BookConfig {
    /// The title of the book.
    pub title: String,
    /// The directory of the book's Markdown files, relative to the book.
    pub src: String,
}

/// The `book` table of a configuration, as far as it is read.
#[derive(Debug, Clone, PartialEq, Eq)]
pub struct BookSection {
    /// The string under `title`, if there is one.
    pub title: Option<String>,
    /// The string under `src`, if there is one.
    pub src: Option<String>,
}

/// What a [`BookConfig`] holds, as mathematical text.
pub struct ConfigView {
    pub title: Seq<char>,
    pub src: Seq<char>,
}

/// What a [`BookSection`] holds, as mathematical text.
pub struct SectionView {
    pub title: Option<Seq<char>>,
    pub src: Option<Seq<char>>,
}

impl View for BookConfig {
    type V = ConfigView;

    open spec fn view(&self) -> ConfigView {
        ConfigView { title: self.title@, src: self.src@ }
    }
}

impl View for BookSection {
    type V = SectionView;

    open spec fn view(&self) -> SectionView {
        SectionView {
            title: match self.title {
                Some(text) => Some(text@),
                None => None,
            },
            src: match self.src {
                Some(text) => Some(text@),
                None => None,
            },
        }
    }
}

/// What a configuration lacks.
pub enum ConfigFault {
    /// It has no `book` table.
    NoBookTable,
    /// Its `book` table has no string `title`.
    NoTitleField,
    /// Its `book` table has no string `src`.
    NoSrcField,
}

/// The string under `key` in `table`, if there is one.
pub open spec fn text_under(table: Map<Seq<char>, Seq<char>>, key: Seq<char>) -> Option<Seq<char>> {
    if table.contains_key(key) {
        Some(table[key])
    } else {
        None
    }
}

/// The `book` table among `sections`, if there is one.
pub open spec fn book_section(sections: Map<Seq<char>, Map<Seq<char>, Seq<char>>>) -> Option<
    SectionView,
> {
    if sections.contains_key("book"@) {
        Some(
            SectionView {
                title: text_under(sections["book"@], "title"@),
                src: text_under(sections["book"@], "src"@),
            },
        )
    } else {
        None
    }
}

/// The configuration that a `book` table gives, or the first thing that is
/// missing: the table itself, then its title, then its source directory.
pub open spec fn config_of(book: Option<SectionView>) -> Result<ConfigView, ConfigFault> {
    match book {
        None => Err(ConfigFault::NoBookTable),
        Some(section) => match (section.title, section.src) {
            (None, _) => Err(ConfigFault::NoTitleField),
            (Some(_), None) => Err(ConfigFault::NoSrcField),
            (Some(title), Some(src)) => Ok(ConfigView { title, src }),
        },
    }
}

/// Whether `result` is what is owed for `expected`.
pub open spec fn config_reports(
    result: Result<BookConfig, SlidesError>,
    expected: Result<ConfigView, ConfigFault>,
) -> bool {
    match expected {
        Ok(config) => result matches Ok(found) && found@ == config,
        Err(ConfigFault::NoBookTable) => result matches Err(SlidesError::NoBookTable),
        Err(ConfigFault::NoTitleField) => result matches Err(SlidesError::NoTitleField),
        Err(ConfigFault::NoSrcField) => result matches Err(SlidesError::NoSrcField),
    }
}

/// The configuration that the `book` table `book` of a document gives.
///
/// Fails with `NoBookTable` where the document has no such table, with
/// `NoTitleField` where the table has no title, and with `NoSrcField` where
/// it has a title and no source directory.
pub fn select_config(book: Option<BookSection>) -> (result: Result<BookConfig, SlidesError>)
    ensures
        config_reports(
            result,
            config_of(
                match book {
                    Some(section) => Some(section@),
                    None => None,
                },
            ),
        ),
{
    match book {
        None => Err(SlidesError::NoBookTable),
        Some(section) => match section.title {
            None => Err(SlidesError::NoTitleField),
            Some(title) => match section.src {
                None => Err(SlidesError::NoSrcField),
                Some(src) => Ok(BookConfig { title, src }),
            },
        },
    }
}

fn text_in(table: &toml::map::Map<String, toml::Value>, key: &str) -> (text: Option<String>)
    ensures
        (match text {
            Some(found) => Some(found@),
            None => None,
        }) == text_under(table_texts(*table), key@),
{
    match lookup(table, key) {
        Found::Text(text) => Some(text.to_owned()),
        _ => None,
    }
}

/// Reads the configuration of a book from the text of its `book.toml`.
///
/// Fails with `FormatError` where the text is not a TOML document, and
/// otherwise as [`select_config`] does for the document's `book` table.
pub fn book_config(config_src: &str) -> (result: Result<BookConfig, SlidesError>)
    ensures
        match toml_sections(config_src@) {
            None => result matches Err(SlidesError::FormatError(_)),
            Some(sections) => config_reports(result, config_of(book_section(sections))),
        },
{
    match parse_toml(config_src) {
        Err(error) => Err(SlidesError::FormatError(error)),
        Ok(document) => {
            let book = match lookup(&document, "book") {
                Found::Table(table) => Some(
                    BookSection { title: text_in(table, "title"), src: text_in(table, "src") },
                ),
                _ => None,
            };
            select_config(book)
        },
    }
}

/// One chapter that is to be turned into slides.
#[derive(Debug, Clone, PartialEq, Eq)]
pub struct ChapterJob {
    /// The title of the chapter.
    pub title: String,
    /// The chapter's Markdown file, relative to the book's source directory.
    pub source: String,
    /// The chapter's slide file, relative to the output directory.
    pub output: String,
}

/// What a [`ChapterJob`] holds, as mathematical text.
pub struct JobView {
    pub title: Seq<char>,
    pub source: Seq<char>,
    pub output: Seq<char>,
}

impl View for ChapterJob {
    type V = JobView;

    open spec fn view(&self) -> JobView {
        JobView { title: self.title@, source: self.source@, output: self.output@ }
    }
}

/// The views of a sequence of jobs, in order.
pub open spec fn job_views(jobs: Seq<ChapterJob>) -> Seq<JobView> {
    Seq::new(jobs.len(), |i: int| jobs[i]@)
}

/// The chapters among `entries` that have a file behind them, in order,
/// each with the name of its slide file. Headings and placeholders give
/// nothing.
pub open spec fn jobs_of(entries: Seq<EntryView>) -> Seq<JobView>
    decreases entries.len(),
{
    if entries.len() == 0 {
        Seq::empty()
    } else {
        match entries.last() {
            EntryView::Chapter { title, path } => if path.len() > 0 {
                jobs_of(entries.drop_last()).push(
                    JobView { title, source: path, output: output_name(path) },
                )
            } else {
                jobs_of(entries.drop_last())
            },
            _ => jobs_of(entries.drop_last()),
        }
    }
}

/// The chapters of an outline that are to be turned into slides, in the
/// order of the outline.
pub fn chapter_jobs(entries: &[IndexEntry]) -> (jobs: Vec<ChapterJob>)
    ensures
        job_views(jobs@) == jobs_of(entry_views(entries@)),
{
    let ghost views = entry_views(entries@);
    let mut jobs: Vec<ChapterJob> = Vec::new();
    let mut i: usize = 0;
    assert(job_views(jobs@) == Seq::<JobView>::empty());
    while i < entries.len()
        invariant
            i <= entries.len(),
            views == entry_views(entries@),
            job_views(jobs@) == jobs_of(views.take(i as int)),
        decreases entries.len() - i,
    {
        proof {
            let upto = views.take(i + 1);
            assert(upto.drop_last() == views.take(i as int));
            assert(upto.last() == entries@[i as int]@);
        }
        if let IndexEntry::Chapter { title, path } = &entries[i] {
            if path.as_str().unicode_len() > 0 {
                let ghost before = job_views(jobs@);
                let job = ChapterJob {
                    title: title.clone(),
                    source: path.clone(),
                    output: slide_file_name(path.as_str()),
                };
                jobs.push(job);
                assert(job_views(jobs@) == before.push(job@));
            }
        }
        i += 1;
    }
    assert(views.take(entries.len() as int) == views);
    jobs
}

} // verus!
