use sitegen::errors::BuildError;
use sitegen::pipeline::{build_site, BuildInputs, BuildOutputs};

fn article_text(title: &str, date: &str, body: &str) -> String {
    format!(
        "---\ntitle: {title}\ntagline: t\ntags: [one, two]\ndate: {date}\nauthor: a\nedited: false\nlang: en\n---\n{body}"
    )
}

fn inputs(articles: Vec<(String, String)>) -> BuildInputs {
    BuildInputs {
        article_template: "<html><h1>{{title}}</h1><p>{{date}} by {{author}}</p>{{{article}}}<link href=\"{{stylesheet}}\">".to_string(),
        main_template: "<main>{{generated}} {{stylesheet}}</main>".to_string(),
        list_template: "<ul>{{#each article_cards}}{{{this}}}{{/each}}</ul><footer>{{generated}}</footer>".to_string(),
        card_template: "<li><a href=\"{{article_link}}\">{{title}}</a> {{date}} [{{tags}}]</li>".to_string(),
        stylesheet_source: "body { color: red; }".to_string(),
        generated: "2024-01-01T00:00:00Z".to_string(),
        articles,
    }
}

fn build_one(title: &str, date: &str, body: &str) -> BuildOutputs {
    let files = vec![("a.md".to_string(), article_text(title, date, body))];
    build_site(&inputs(files)).expect("build should succeed")
}

#[test]
fn a_full_build_produces_every_page() {
    let out = build_one("Hello World", "2024-01-01", "Hello *there*.\n\n![pic](../images/photo.jpg)");
    assert_eq!(
        out.stylesheet_name,
        "main.5de625c36355cce7c1d5408826a0b21abfb49fb6c0e1f16c945a6f2aef38200c.css"
    );
    assert_eq!(out.article_pages.len(), 1);
    let (name, page) = &out.article_pages[0];
    assert_eq!(name, "2024-01-01-hello world.html");
    assert!(page.contains("<h1>Hello World</h1>"));
    assert!(page.contains("<em>there</em>"));
    assert!(page.contains("../images/photo.jpg"), "missing image source keeps the reference");
    assert!(page.contains(
        "../main.5de625c36355cce7c1d5408826a0b21abfb49fb6c0e1f16c945a6f2aef38200c.css"
    ));
    assert!(out.list_page.contains("<a href=\"2024-01-01-hello world.html\">Hello World</a>"));
    assert!(out.list_page.contains("[one, two]"));
    assert!(out.main_page.contains("2024-01-01T00:00:00Z"));
    assert!(out.main_page.contains(
        "main.5de625c36355cce7c1d5408826a0b21abfb49fb6c0e1f16c945a6f2aef38200c.css"
    ));
}

#[test]
fn articles_are_ordered_newest_first() {
    let files = vec![
        ("one.md".to_string(), article_text("One", "2023-01-01", "x")),
        ("two.md".to_string(), article_text("Two", "2024-06-15", "y")),
        ("three.md".to_string(), article_text("Three", "2023-12-31", "z")),
    ];
    let out = build_site(&inputs(files)).expect("build should succeed");
    let names: Vec<&str> = out.article_pages.iter().map(|p| p.0.as_str()).collect();
    assert_eq!(
        names,
        vec![
            "2024-06-15-two.html",
            "2023-12-31-three.html",
            "2023-01-01-one.html",
        ]
    );
}

#[test]
fn an_edited_article_shows_its_edit_date() {
    let text = article_text("Note", "2024-03-04", "body")
        .replace("edited: false", "edited: true\nedited_date: 2024-05-06");
    let out = build_site(&inputs(vec![("n.md".to_string(), text)])).unwrap();
    let (_, page) = &out.article_pages[0];
    assert!(page.contains("2024-03-04 (Edited 2024-05-06)"));
}

#[test]
fn a_malformed_article_aborts_the_build() {
    let bad = "---\ntagline: t\ntags: []\ndate: d\nauthor: a\nedited: false\nlang: en\n---\nbody";
    let files = vec![
        ("good.md".to_string(), article_text("Fine", "2024-01-01", "x")),
        ("bad.md".to_string(), bad.to_string()),
    ];
    match build_site(&inputs(files)) {
        Err(BuildError::MalformedFrontMatter(f)) => assert_eq!(f, "bad.md"),
        other => panic!("expected MalformedFrontMatter, got {:?}", other.is_ok()),
    }
}

#[test]
fn a_malformed_template_fails_template_loading() {
    let mut inp = inputs(vec![("a.md".to_string(), article_text("T", "2024-01-01", "x"))]);
    inp.article_template = "{{#if}".to_string();
    match build_site(&inp) {
        Err(BuildError::TemplateLoadFailed) => {}
        _ => panic!("expected TemplateLoadFailed"),
    }
}

#[test]
fn a_template_that_compiles_but_cannot_render_fails_rendering() {
    let mut inp = inputs(vec![("a.md".to_string(), article_text("T", "2024-01-01", "x"))]);
    inp.article_template = "{{> missing_partial}}".to_string();
    match build_site(&inp) {
        Err(BuildError::RenderFailed) => {}
        _ => panic!("expected RenderFailed"),
    }
}

#[test]
fn articles_sharing_a_date_all_stay_in_the_build() {
    let files = vec![
        ("a.md".to_string(), article_text("Alpha", "2024-01-01", "x")),
        ("b.md".to_string(), article_text("Beta", "2024-01-01", "y")),
    ];
    let out = build_site(&inputs(files)).expect("build should succeed");
    let mut names: Vec<&str> = out.article_pages.iter().map(|p| p.0.as_str()).collect();
    names.sort();
    assert_eq!(names, vec!["2024-01-01-alpha.html", "2024-01-01-beta.html"]);
}

#[test]
fn a_build_with_no_articles_still_renders_the_fixed_pages() {
    let out = build_site(&inputs(vec![])).expect("empty build should succeed");
    assert!(out.article_pages.is_empty());
    assert!(out.list_page.starts_with("<ul>"));
    assert!(out.main_page.starts_with("<main>"));
}
