//! Markdown rendering. The body is parsed with the table, strikethrough
//! and task-list extensions; every image node's reference runs through
//! the fingerprinting policy and is written back into the tree; the tree
//! is serialized to HTML; and tables are wrapped after serialization.

use vstd::prelude::*;
use crate::images;
use crate::strutil;
use crate::tables;

verus! {

/// The reference URLs of the image nodes of `body`'s Markdown tree, in
/// depth-first pre-order.
pub uninterp spec fn md_image_urls(body: Seq<char>) -> Seq<Seq<char>>;

/// Relies on comrak (`parse_document` and the tree's `descendants`
/// iterator): parses `body` with the table, strikethrough and task-list
/// extensions and hands out each image node's URL, in document order.
/// The result depends on the body alone.
#[verifier::external_body]
fn collect_image_urls(body: &str) -> (r: Vec<String>)
    ensures
        r.deep_view() == md_image_urls(body@),
{
    let mut options = comrak::Options::default();
    options.extension.table = true;
    options.extension.strikethrough = true;
    options.extension.tasklist = true;
    let arena = comrak::Arena::new();
    let root = comrak::parse_document(&arena, body, &options);
    let mut urls: Vec<String> = Vec::new();
    for node in root.descendants() {
        if let comrak::nodes::NodeValue::Image(ref link) = node.data.borrow().value {
            urls.push(link.url.clone());
        }
    }
    urls
}

/// The HTML comrak serializes for `body` (parsed as `md_image_urls`
/// sees it) after the image node URLs are replaced, in document order,
/// by `urls`.
pub uninterp spec fn md_html_with_images(body: Seq<char>, urls: Seq<Seq<char>>) -> Seq<char>;

/// Relies on comrak (`parse_document`, `format_html`): parses `body` as
/// `collect_image_urls` does, writes `urls` into the image nodes in
/// document order, and serializes the tree back to HTML. The result
/// depends on the body and the urls alone.
#[verifier::external_body]
fn render_with_images(body: &str, urls: &Vec<String>) -> (r: String)
    requires
        urls.deep_view().len() == md_image_urls(body@).len(),
    ensures
        r@ == md_html_with_images(body@, urls.deep_view()),
{
    let mut options = comrak::Options::default();
    options.extension.table = true;
    options.extension.strikethrough = true;
    options.extension.tasklist = true;
    let arena = comrak::Arena::new();
    let root = comrak::parse_document(&arena, body, &options);
    let mut i: usize = 0;
    for node in root.descendants() {
        if let comrak::nodes::NodeValue::Image(ref mut link) = node.data.borrow_mut().value {
            if i < urls.len() { link.url = urls[i].clone(); i += 1; }
        }
    }
    let mut html = String::new();
    let _ = comrak::format_html(root, &options, &mut html);
    html
}

/// Whether `new_urls` is what the fingerprinting policy may turn the
/// image references of `body` into: each reference stays itself or
/// becomes its fingerprinted path, and a reference outside the images
/// directory always stays itself.
pub open spec fn spec_urls_rewritten(body: Seq<char>, new_urls: Seq<Seq<char>>) -> bool {
    &&& new_urls.len() == md_image_urls(body).len()
    &&& forall|i: int|
        0 <= i < new_urls.len() ==> images::spec_acceptable_rewrite(
            md_image_urls(body)[i],
            #[trigger] new_urls[i],
        )
    &&& forall|i: int|
        0 <= i < new_urls.len() && !images::spec_is_local(md_image_urls(body)[i])
            ==> #[trigger] new_urls[i] == md_image_urls(body)[i]
}

/// Renders an article body to final HTML: every image reference is
/// rewritten through the fingerprinting policy, the tree is serialized,
/// and every table is wrapped in its container div.
pub fn render_body(body: &str) -> (r: String)
    ensures
        exists|new_urls: Seq<Seq<char>>|
            spec_urls_rewritten(body@, new_urls) && r@ == tables::spec_wrap_tables(
                #[trigger] md_html_with_images(body@, new_urls),
            ),
{
    let urls = collect_image_urls(body);
    let n = urls.len();
    let mut new_urls: Vec<String> = Vec::new();
    let mut i: usize = 0;
    while i < n
        invariant
            i <= n,
            n == urls@.len(),
            urls.deep_view() == md_image_urls(body@),
            new_urls.deep_view().len() == i,
            forall|k: int|
                0 <= k < i ==> images::spec_acceptable_rewrite(
                    urls.deep_view()[k],
                    #[trigger] new_urls.deep_view()[k],
                ),
            forall|k: int|
                0 <= k < i && !images::spec_is_local(urls.deep_view()[k])
                    ==> #[trigger] new_urls.deep_view()[k] == urls.deep_view()[k],
        decreases n - i,
    {
        proof {
            assert(urls.deep_view()[i as int] == urls@[i as int]@);
        }
        let ghost prev = new_urls.deep_view();
        let rewritten = images::process_image_url(urls[i].as_str());
        new_urls.push(rewritten);
        proof {
            assert(new_urls.deep_view() =~~= prev.push(rewritten@));
        }
        i += 1;
    }
    let html = render_with_images(body, &new_urls);
    let r = tables::wrap_tables(html.as_str());
    proof {
        assert(spec_urls_rewritten(body@, new_urls.deep_view()));
        assert(r@ == tables::spec_wrap_tables(md_html_with_images(body@, new_urls.deep_view())));
    }
    r
}

} // verus!
