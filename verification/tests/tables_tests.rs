use sitegen::tables::wrap_tables;

#[test]
fn a_table_is_wrapped_in_the_container_div() {
    let html = "<p>before</p><table><tr><td>x</td></tr></table><p>after</p>";
    let wrapped = wrap_tables(html);
    assert_eq!(
        wrapped,
        "<p>before</p><div class=\"table-container\">\n<table><tr><td>x</td></tr></table>\n</div><p>after</p>"
    );
}

#[test]
fn html_without_tables_is_unchanged() {
    let html = "<p>no tables here</p>";
    assert_eq!(wrap_tables(html), html);
}

#[test]
fn every_table_is_wrapped() {
    let html = "<table>a</table><table>b</table>";
    let wrapped = wrap_tables(html);
    assert_eq!(
        wrapped,
        "<div class=\"table-container\">\n<table>a</table>\n</div><div class=\"table-container\">\n<table>b</table>\n</div>"
    );
}
