use sitegen::markdown::render_body;

#[test]
fn markdown_becomes_html() {
    let html = render_body("Hello *there* **friend**");
    assert!(html.contains("<em>there</em>"));
    assert!(html.contains("<strong>friend</strong>"));
}

#[test]
fn strikethrough_is_enabled() {
    let html = render_body("~~gone~~");
    assert!(html.contains("<del>gone</del>"));
}

#[test]
fn a_remote_image_reference_is_kept() {
    let html = render_body("![alt](https://example.com/a.png)");
    assert!(html.contains("https://example.com/a.png"));
}

#[test]
fn a_local_image_with_a_missing_source_is_kept() {
    let html = render_body("![alt](../images/definitely-not-on-disk.jpg)");
    assert!(html.contains("../images/definitely-not-on-disk.jpg"));
}

#[test]
fn rendered_tables_are_wrapped() {
    let md = "| a | b |\n|---|---|\n| 1 | 2 |\n";
    let html = render_body(md);
    assert!(html.contains("<div class=\"table-container\">\n<table>"));
    assert!(html.contains("</table>\n</div>"));
}
