use sitegen::frontmatter::parse_front_matter;

fn good_text() -> String {
    [
        "---",
        "title: Hello World",
        "tagline: a greeting",
        "tags: [rust, web]",
        "date: 2024-01-01",
        "author: someone",
        "edited: false",
        "lang: en",
        "---",
        "",
        "Hello *there*.",
    ]
    .join("\n")
}

#[test]
fn parses_a_complete_block() {
    let (fm, body) = parse_front_matter(&good_text()).expect("front matter should parse");
    assert_eq!(fm.title, "Hello World");
    assert_eq!(fm.tagline, "a greeting");
    assert_eq!(fm.tags, vec!["rust".to_string(), "web".to_string()]);
    assert_eq!(fm.date, "2024-01-01");
    assert_eq!(fm.author, "someone");
    assert!(!fm.edited);
    assert_eq!(fm.lang, "en");
    assert_eq!(fm.edited_date, None);
    assert_eq!(body, "\nHello *there*.");
}

#[test]
fn display_date_of_unedited_article_is_the_raw_date() {
    let (fm, _) = parse_front_matter(&good_text()).unwrap();
    assert_eq!(fm.display_date(), "2024-01-01");
}

#[test]
fn display_date_of_edited_article_carries_the_edit_date() {
    let text = good_text().replace("edited: false", "edited: true\nedited_date: 2024-02-03");
    let (fm, _) = parse_front_matter(&text).unwrap();
    assert!(fm.edited);
    assert_eq!(fm.edited_date.as_deref(), Some("2024-02-03"));
    assert_eq!(fm.display_date(), "2024-01-01 (Edited 2024-02-03)");
}

#[test]
fn edited_without_edited_date_is_rejected() {
    let text = good_text().replace("edited: false", "edited: true");
    assert!(parse_front_matter(&text).is_none());
}

#[test]
fn edited_with_null_edited_date_is_rejected() {
    let text = good_text().replace("edited: false", "edited: true\nedited_date: null");
    assert!(parse_front_matter(&text).is_none());
}

#[test]
fn missing_title_is_rejected() {
    let text = good_text().replace("title: Hello World\n", "");
    assert!(parse_front_matter(&text).is_none());
}

#[test]
fn missing_opening_delimiter_is_rejected() {
    let text = good_text().replacen("---\n", "", 1);
    assert!(parse_front_matter(&text).is_none());
}

#[test]
fn missing_closing_delimiter_is_rejected() {
    let text = [
        "---",
        "title: t",
        "tagline: g",
        "tags: []",
        "date: d",
        "author: a",
        "edited: false",
        "lang: en",
    ]
    .join("\n");
    assert!(parse_front_matter(&text).is_none());
}

#[test]
fn block_lists_and_quotes_parse() {
    let text = [
        "---",
        "title: \"Quoted Title\"",
        "tagline: 'single quoted'",
        "tags:",
        "  - alpha",
        "  - \"beta\"",
        "date: 2020-05-05",
        "author: a",
        "edited: false",
        "lang: en",
        "# a comment line",
        "---",
        "body",
    ]
    .join("\n");
    let (fm, body) = parse_front_matter(&text).expect("block lists should parse");
    assert_eq!(fm.title, "Quoted Title");
    assert_eq!(fm.tagline, "single quoted");
    assert_eq!(fm.tags, vec!["alpha".to_string(), "beta".to_string()]);
    assert_eq!(body, "body");
}

#[test]
fn later_duplicate_keys_win() {
    let text = good_text().replace("lang: en", "lang: en\nlang: de");
    let (fm, _) = parse_front_matter(&text).unwrap();
    assert_eq!(fm.lang, "de");
}

#[test]
fn a_non_boolean_edited_is_rejected() {
    let text = good_text().replace("edited: false", "edited: maybe");
    assert!(parse_front_matter(&text).is_none());
}

#[test]
fn scalar_tags_are_rejected() {
    let text = good_text().replace("tags: [rust, web]", "tags: rust");
    assert!(parse_front_matter(&text).is_none());
}

#[test]
fn empty_inline_tags_parse_as_empty_list() {
    let text = good_text().replace("tags: [rust, web]", "tags: []");
    let (fm, _) = parse_front_matter(&text).unwrap();
    assert!(fm.tags.is_empty());
}

#[test]
fn a_line_without_a_colon_is_rejected() {
    let text = good_text().replace("lang: en", "lang en");
    assert!(parse_front_matter(&text).is_none());
}
