use moxide::entry::{decode_meta, output_path, ContentEntry, Metadata};
use moxide::error::Error;
use moxide::frontmatter::{split_description, split_front_matter, strip};
use moxide::timestamp::Timestamp;

fn meta_toml(title: &str, date: &str, renderer: &str) -> String {
    let mut table = toml::Table::new();
    table.insert("title".to_owned(), toml::Value::String(title.to_owned()));
    table.insert("date".to_owned(), toml::Value::String(date.to_owned()));
    table.insert("renderer".to_owned(), toml::Value::String(renderer.to_owned()));
    toml::to_string_pretty(&table).unwrap()
}

fn now_text() -> String {
    chrono::Local::now().fixed_offset().to_rfc3339()
}

#[test]
fn test_try_new() {
    let binding = meta_toml("test", &now_text(), "page");
    let meta = binding.trim();

    let test_input = format!(
        "+++
{meta}
+++"
    );
    ContentEntry::with_content(&test_input).unwrap();

    let test_input = format!(
        "
{test_input}

test1

<!-- more -->
"
    );

    assert_eq!(
        ContentEntry::with_content(&test_input).unwrap().description,
        "test1"
    )
}

#[test]
fn rejects_text_without_opening_delimiter() {
    for text in ["", "hello", "title = \"x\"\n+++\n+++", "  ++ \n+++"] {
        assert!(matches!(
            ContentEntry::with_content(text),
            Err(Error::InvalidDataBlock)
        ));
    }
}

#[test]
fn rejects_text_without_closing_delimiter() {
    let text = "+++\ntitle = \"x\"\ndate = \"2024-01-02T03:04:05+08:00\"\n";
    assert!(matches!(
        ContentEntry::with_content(text),
        Err(Error::InvalidDataBlock)
    ));
    assert!(matches!(split_front_matter("  +++++  "), Err(Error::InvalidDataBlock)));
}

#[test]
fn description_split_on_marker() {
    assert_eq!(split_description("A\n<!-- more -->\nB"), "A");
    assert_eq!(split_description("  just the body \n"), "just the body");
    assert_eq!(split_description(""), "");
    assert_eq!(split_description("x<!-- more -->y<!-- more -->z"), "x");

    let doc = format!(
        "+++\n{}\n+++\nA\n<!-- more -->\nB",
        meta_toml("t", "2024-01-02T03:04:05+08:00", "page").trim()
    );
    let entry = ContentEntry::with_content(&doc).unwrap();
    assert_eq!(entry.description, "A");
    assert_eq!(entry.content, "\nA\n<!-- more -->\nB");
    assert!(entry.content.ends_with("B"));
}

#[test]
fn strip_removes_only_the_first_block() {
    assert_eq!(strip("+++a+++b+++c+++d"), "b+++c+++d");
    assert_eq!(strip("no block"), "no block");
    assert_eq!(strip("x ++++ y"), "x ++++ y");
}

#[test]
fn front_matter_meta_is_trimmed() {
    let f = split_front_matter("\n  +++\n  a = 1  \n+++ rest").unwrap();
    assert_eq!(f.meta, "a = 1");
    assert_eq!(f.body, "\n   rest");
}

#[test]
fn decode_applies_defaults() {
    let m = decode_meta("title = \"T\"\ndate = \"2024-01-02T03:04:05+08:00\"").unwrap();
    assert_eq!(m.title, "T");
    assert_eq!(m.renderer, "page");
    assert!(m.tags.is_empty());
    assert_eq!(
        m.date,
        Timestamp { secs: 1704135845, nanos: 0, offset: 8 * 3600 }
    );
}

#[test]
fn decode_dedups_tags() {
    let m = decode_meta(
        "title = \"T\"\ndate = \"2024-01-02T03:04:05Z\"\ntag = [\"a\", \"b\", \"a\"]\nrenderer = \"nope\"",
    )
    .unwrap();
    let mut tags = m.tags.clone();
    tags.sort();
    assert_eq!(tags, vec!["a".to_owned(), "b".to_owned()]);
    assert_eq!(m.renderer, "nope");
}

#[test]
fn decode_errors() {
    assert!(matches!(decode_meta("title = "), Err(Error::TomlDe(_))));
    assert!(matches!(
        decode_meta("date = \"2024-01-02T03:04:05Z\""),
        Err(Error::MetadataDecode(f)) if f == "title"
    ));
    assert!(matches!(
        decode_meta("title = \"T\""),
        Err(Error::MetadataDecode(f)) if f == "date"
    ));
    assert!(matches!(
        decode_meta("title = \"T\"\ndate = \"yesterday\""),
        Err(Error::MetadataDecode(f)) if f == "date"
    ));
    assert!(matches!(
        decode_meta("title = \"T\"\ndate = \"2024-01-02T03:04:05Z\"\ntag = [1]"),
        Err(Error::MetadataDecode(f)) if f == "tag"
    ));
    assert!(matches!(
        decode_meta("title = \"T\"\ndate = \"2024-01-02T03:04:05Z\"\nrenderer = 3"),
        Err(Error::MetadataDecode(f)) if f == "renderer"
    ));
}

fn sample_meta() -> Metadata {
    Metadata {
        title: "Hello".to_owned(),
        date: Timestamp { secs: 1704135845, nanos: 0, offset: 8 * 3600 },
        tags: vec!["x".to_owned(), "y".to_owned()],
        renderer: "page".to_owned(),
    }
}

#[test]
fn document_round_trip() {
    let mut entry = ContentEntry::new(sample_meta(), "The description".to_owned());
    entry.content = "The body".to_owned();
    let doc = entry.into_document().unwrap();
    assert!(doc.starts_with("+++\n"));
    let back = ContentEntry::with_content(&doc).unwrap();
    assert_eq!(back.description, "The description");
    assert!(back.content.ends_with("The body"));
    assert_eq!(back.meta.title, "Hello");
    assert_eq!(back.meta.date, sample_meta().date);
    assert_eq!(back.meta.renderer, "page");
    let mut tags = back.meta.tags.clone();
    tags.sort();
    assert_eq!(tags, vec!["x".to_owned(), "y".to_owned()]);
}

#[test]
fn document_with_delimiter_in_metadata_is_refused() {
    let mut meta = sample_meta();
    meta.title = "a+++b".to_owned();
    let entry = ContentEntry::new(meta, "d".to_owned());
    assert!(matches!(entry.into_document(), Err(Error::InvalidDataBlock)));
}

#[test]
fn timestamp_text_forms() {
    let t = Timestamp::parse("2024-01-02T03:04:05+08:00").unwrap();
    assert_eq!(t, Timestamp { secs: 1704135845, nanos: 0, offset: 28800 });
    assert_eq!(t.display(), "2024-01-02 03:04:05 +08:00");
    assert_eq!(t.rfc3339(), "2024-01-02T03:04:05+08:00");
    assert_eq!(Timestamp::parse("not a date"), None);
}

#[test]
fn output_path_encodes_the_date() {
    let t = Timestamp { secs: 1704135845, nanos: 0, offset: 28800 };
    assert_eq!(
        output_path("out", &t),
        "out/contents/2024-01-02%2003%3A04%3A05%20%2B08%3A00"
    );
}

#[test]
fn minimal_document_gets_defaults() {
    let e = ContentEntry::with_content(
        "+++\ntitle = 't'\ndate = '2024-01-01T00:00:00+00:00'\n+++",
    )
    .unwrap();
    assert_eq!(e.meta.title, "t");
    assert_eq!(e.meta.date, Timestamp { secs: 1704067200, nanos: 0, offset: 0 });
    assert!(e.meta.tags.is_empty());
    assert_eq!(e.meta.renderer, "page");
    assert_eq!(e.description, "");
    assert_eq!(e.content, "");
    assert!(matches!(
        ContentEntry::with_content("+++\ntitle = 't'\n+++"),
        Err(Error::MetadataDecode(f)) if f == "date"
    ));
    assert!(matches!(ContentEntry::with_content("+++\nnot toml\n+++"), Err(Error::TomlDe(_))));
}
