//! Template rendering: a pure mapping from typed page data to HTML text,
//! delegated to handlebars. Each page kind hands the engine a template
//! source, string values, and (for the listing page) a list of rendered
//! card fragments.

use vstd::prelude::*;

verus! {

/// Whether `tpl` parses as a template. The answer depends on the source
/// alone.
pub uninterp spec fn hbs_template_ok(tpl: Seq<char>) -> bool;

/// Relies on handlebars' `Template::compile`: whether the template
/// source parses.
#[verifier::external_body]
pub(crate) fn template_ok(tpl: &str) -> (r: bool)
    ensures
        r == hbs_template_ok(tpl@),
{
    handlebars::Template::compile(tpl).is_ok()
}

/// What handlebars renders for `tpl` when the data maps each key of
/// `scalars` to its string and each key of `lists` to its list of
/// strings, or nothing when rendering fails. The answer depends on the
/// template and the data alone.
pub uninterp spec fn hbs_render_spec(
    tpl: Seq<char>,
    scalars: Seq<(Seq<char>, Seq<char>)>,
    lists: Seq<(Seq<char>, Seq<Seq<char>>)>,
) -> Option<Seq<char>>;

pub open spec fn pairs_view(v: Seq<(String, String)>) -> Seq<(Seq<char>, Seq<char>)> {
    v.map_values(|p: (String, String)| (p.0@, p.1@))
}

pub open spec fn lists_view(v: Seq<(String, Vec<String>)>) -> Seq<(Seq<char>, Seq<Seq<char>>)> {
    v.map_values(|p: (String, Vec<String>)| (p.0@, p.1.deep_view()))
}

/// Relies on handlebars' `render_template`: renders `tpl` once against
/// a JSON object that maps each key of `scalars` to its string and each
/// key of `lists` to its array of strings. Rendering is a function of
/// the template and that data.
#[verifier::external_body]
pub(crate) fn render_template(
    tpl: &str,
    scalars: &Vec<(String, String)>,
    lists: &Vec<(String, Vec<String>)>,
) -> (r: Option<String>)
    ensures
        (r is Some) == (hbs_render_spec(tpl@, pairs_view(scalars@), lists_view(lists@)) is Some),
        r matches Some(s) ==> hbs_render_spec(tpl@, pairs_view(scalars@), lists_view(lists@))
            == Some(s@),
{
    let mut data = serde_json::Map::new();
    for (k, v) in scalars.iter() {
        data.insert(k.clone(), serde_json::Value::String(v.clone()));
    }
    for (k, vs) in lists.iter() {
        let mut items: Vec<serde_json::Value> = Vec::new();
        for s in vs.iter() {
            items.push(serde_json::Value::String(s.clone()));
        }
        data.insert(k.clone(), serde_json::Value::Array(items));
    }
    handlebars::Handlebars::new().render_template(tpl, &serde_json::Value::Object(data)).ok()
}

} // verus!
