//! The build pipeline over plain values: given the four template
//! sources, the stylesheet source, the article files' names and
//! contents, and the build timestamp, produce every page of the site
//! and the fingerprinted stylesheet name. Reading those inputs from
//! disk, writing the outputs, and running the external stylesheet build
//! stay outside this function.

use vstd::prelude::*;
use crate::articles;
use crate::articles::{
    spec_article_data, spec_article_filename, spec_article_of, spec_card_data, spec_card_of,
    spec_cards_data, spec_page_scalars, spec_sorted_desc, Article, ArticleView,
};
use crate::errors::BuildError;
use crate::fingerprint;
use crate::fingerprint::spec_stylesheet_name;
use crate::frontmatter;
use crate::frontmatter::spec_extract;
use crate::markdown;
use crate::markdown::{md_html_with_images, spec_urls_rewritten};
use crate::tables;
use crate::templates;
use crate::templates::{hbs_render_spec, hbs_template_ok, pairs_view};

verus! {

/// What one source file's article must be: its contents parse, and the
/// article holds the parsed metadata with the body rendered under some
/// run of the image policy.
pub open spec fn spec_built_article(
    av: ArticleView,
    contents: Seq<char>,
    stylesheet: Seq<char>,
    generated: Seq<char>,
) -> bool {
    &&& spec_extract(contents) is Some
    &&& exists|urls: Seq<Seq<char>>|
        {
            &&& spec_urls_rewritten((spec_extract(contents)->Some_0).1, urls)
            &&& av == spec_article_of(
                (spec_extract(contents)->Some_0).0,
                tables::spec_wrap_tables(
                    #[trigger] md_html_with_images((spec_extract(contents)->Some_0).1, urls),
                ),
                stylesheet,
                generated,
            )
        }
}

/// The first file (in input order) whose contents fail front-matter
/// extraction, from `i` on.
pub open spec fn spec_first_bad(files: Seq<(Seq<char>, Seq<char>)>, i: int) -> Option<int>
    decreases files.len() - i,
    when 0 <= i <= files.len()
{
    if i >= files.len() {
        None
    } else if spec_extract(files[i].1) is None {
        Some(i)
    } else {
        spec_first_bad(files, i + 1)
    }
}

/// Builds one article record per source file, in input order: each file
/// is split into front matter and body, the body rendered, the record
/// assembled. The first malformed file aborts the whole collection,
/// naming that file.
pub fn collect_articles(files: &Vec<(String, String)>, stylesheet: &str, generated: &str) -> (r:
    Result<Vec<Article>, BuildError>)
    ensures
        (r is Ok) == (spec_first_bad(pairs_view(files@), 0) is None),
        r matches Ok(arts) ==> arts@.len() == files@.len() && forall|i: int|
            0 <= i < files@.len() ==> spec_built_article(
                #[trigger] arts.deep_view()[i],
                pairs_view(files@)[i].1,
                stylesheet@,
                generated@,
            ),
        r matches Err(e) ==> (e matches BuildError::MalformedFrontMatter(f)
            && spec_first_bad(pairs_view(files@), 0) matches Some(i) && f@ == pairs_view(
            files@,
        )[i].0),
{
    let ghost fv = pairs_view(files@);
    let n = files.len();
    let mut arts: Vec<Article> = Vec::new();
    let mut i: usize = 0;
    while i < n
        invariant
            i <= n,
            n == files@.len(),
            fv == pairs_view(files@),
            spec_first_bad(fv, 0) == spec_first_bad(fv, i as int),
            arts@.len() == i,
            forall|k: int|
                0 <= k < i ==> spec_built_article(
                    #[trigger] arts.deep_view()[k],
                    fv[k].1,
                    stylesheet@,
                    generated@,
                ),
        decreases n - i,
    {
        proof {
            assert(fv[i as int].1 == files@[i as int].1@);
            assert(fv[i as int].0 == files@[i as int].0@);
        }
        match frontmatter::parse_front_matter(files[i].1.as_str()) {
            None => {
                return Err(BuildError::MalformedFrontMatter(files[i].0.clone()));
            },
            Some(p) => {
                let (fm, body) = p;
                proof {
                    frontmatter::lemma_extract_wf(fv[i as int].1);
                }
                let html = markdown::render_body(body.as_str());
                let art = articles::article_of(&fm, html, stylesheet, generated);
                let ghost prev = arts.deep_view();
                arts.push(art);
                proof {
                    assert(arts.deep_view() =~~= prev.push(art@));
                    let contents = fv[i as int].1;
                    let us = choose|new_urls: Seq<Seq<char>>|
                        spec_urls_rewritten(body@, new_urls) && html@ == tables::spec_wrap_tables(
                            #[trigger] md_html_with_images(body@, new_urls),
                        );
                    assert((spec_extract(contents)->Some_0).1 == body@);
                    assert(spec_urls_rewritten((spec_extract(contents)->Some_0).1, us));
                    assert(art@ == spec_article_of(
                        (spec_extract(contents)->Some_0).0,
                        tables::spec_wrap_tables(
                            md_html_with_images((spec_extract(contents)->Some_0).1, us),
                        ),
                        stylesheet@,
                        generated@,
                    ));
                    assert(spec_built_article(art@, contents, stylesheet@, generated@));
                }
            },
        }
        i += 1;
    }
    Ok(arts)
}

/// Everything a build reads, as plain values: the four template
/// sources, the stylesheet source, the build timestamp, and each
/// article file's name and contents.
pub struct BuildInputs {
    pub article_template: String,
    pub main_template: String,
    pub list_template: String,
    pub card_template: String,
    pub stylesheet_source: String,
    pub generated: String,
    pub articles: Vec<(String, String)>,
}

/// Everything a successful build produces: the fingerprinted stylesheet
/// name, one page per article under its output file name, the listing
/// page, and the home page.
pub struct BuildOutputs {
    pub stylesheet_name: String,
    pub article_pages: Vec<(String, String)>,
    pub list_page: String,
    pub main_page: String,
}

/// Whether all four template sources parse.
pub open spec fn spec_templates_ok(inp: BuildInputs) -> bool {
    &&& hbs_template_ok(inp.article_template@)
    &&& hbs_template_ok(inp.main_template@)
    &&& hbs_template_ok(inp.list_template@)
    &&& hbs_template_ok(inp.card_template@)
}

/// Whether `r` is the front-matter failure.
pub open spec fn spec_is_malformed_err(r: Result<BuildOutputs, BuildError>) -> bool {
    match r {
        Err(BuildError::MalformedFrontMatter(_)) => true,
        _ => false,
    }
}

/// Whether `arts` is the sorted form of this build's per-file articles
/// `built`: one built article per source file, and `arts` a
/// newest-first ordering of exactly those.
pub open spec fn spec_collected(
    inp: BuildInputs,
    arts: Seq<ArticleView>,
    built: Seq<ArticleView>,
) -> bool {
    let css_ref = "../"@ + spec_stylesheet_name(inp.stylesheet_source@);
    let files = pairs_view(inp.articles@);
    &&& built.len() == files.len()
    &&& forall|i: int|
        0 <= i < files.len() ==> spec_built_article(
            #[trigger] built[i],
            files[i].1,
            css_ref,
            inp.generated@,
        )
    &&& arts.to_multiset() == built.to_multiset()
    &&& spec_sorted_desc(arts)
}

/// Whether `cards` is exactly the rendered listing card of each article
/// of `arts`, in order.
pub open spec fn spec_rendered_cards(
    inp: BuildInputs,
    arts: Seq<ArticleView>,
    cards: Seq<Seq<char>>,
) -> bool {
    &&& cards.len() == arts.len()
    &&& forall|i: int|
        0 <= i < arts.len() ==> hbs_render_spec(
            inp.card_template@,
            spec_card_data(spec_card_of(arts[i])),
            Seq::<(Seq<char>, Seq<Seq<char>>)>::empty(),
        ) == Some(#[trigger] cards[i])
}

/// What a successful build's outputs satisfy, spelled out over the
/// sorted article list `arts`, the per-file article list `built`, and
/// the rendered cards.
pub open spec fn spec_build_lists_ok(
    inp: BuildInputs,
    out: BuildOutputs,
    arts: Seq<ArticleView>,
    built: Seq<ArticleView>,
    cards: Seq<Seq<char>>,
) -> bool {
    let css_ref = "../"@ + spec_stylesheet_name(inp.stylesheet_source@);
    let pages = pairs_view(out.article_pages@);
    &&& spec_collected(inp, arts, built)
    &&& pages.len() == arts.len()
    &&& forall|i: int|
        0 <= i < arts.len() ==> (#[trigger] pages[i]).0 == spec_article_filename(arts[i])
            && hbs_render_spec(
            inp.article_template@,
            spec_article_data(arts[i]),
            Seq::<(Seq<char>, Seq<Seq<char>>)>::empty(),
        ) == Some(pages[i].1)
    &&& spec_rendered_cards(inp, arts, cards)
    &&& hbs_render_spec(inp.list_template@, spec_page_scalars(inp.generated@, css_ref), spec_cards_data(cards))
        == Some(out.list_page@)
}

/// Why rendering could not finish for the build's article list `arts`:
/// one of the renders a successful build owes returns nothing — an
/// article page, a listing card, the listing page over exactly the
/// rendered cards, or the home page.
pub open spec fn spec_render_failure(
    inp: BuildInputs,
    arts: Seq<ArticleView>,
    cards: Seq<Seq<char>>,
) -> bool {
    let css = spec_stylesheet_name(inp.stylesheet_source@);
    let css_ref = "../"@ + css;
    ||| exists|k: int|
        0 <= k < arts.len() && hbs_render_spec(
            inp.article_template@,
            spec_article_data(#[trigger] arts[k]),
            Seq::<(Seq<char>, Seq<Seq<char>>)>::empty(),
        ) is None
    ||| exists|k: int|
        0 <= k < arts.len() && hbs_render_spec(
            inp.card_template@,
            spec_card_data(spec_card_of(#[trigger] arts[k])),
            Seq::<(Seq<char>, Seq<Seq<char>>)>::empty(),
        ) is None
    ||| (spec_rendered_cards(inp, arts, cards) && hbs_render_spec(
        inp.list_template@,
        spec_page_scalars(inp.generated@, css_ref),
        spec_cards_data(cards),
    ) is None)
    ||| hbs_render_spec(
        inp.main_template@,
        spec_page_scalars(inp.generated@, css),
        Seq::<(Seq<char>, Seq<Seq<char>>)>::empty(),
    ) is None
}

/// What any successful build satisfies: the fingerprinted stylesheet
/// name, the rendered home page, and (for some run of the image policy)
/// the sorted article pages, cards and listing page.
pub open spec fn spec_outputs_ok(inp: BuildInputs, out: BuildOutputs) -> bool {
    let css = spec_stylesheet_name(inp.stylesheet_source@);
    &&& out.stylesheet_name@ == css
    &&& hbs_render_spec(
        inp.main_template@,
        spec_page_scalars(inp.generated@, css),
        Seq::<(Seq<char>, Seq<Seq<char>>)>::empty(),
    ) == Some(out.main_page@)
    &&& exists|arts: Seq<ArticleView>, built: Seq<ArticleView>, cards: Seq<Seq<char>>|
        spec_build_lists_ok(inp, out, arts, built, cards)
}

/// Runs the whole content build over plain values. The templates are
/// checked first (`TemplateLoadFailed` exactly when one does not
/// parse); then the stylesheet is fingerprinted, every article file is
/// parsed and rendered (`MalformedFrontMatter` names the first bad
/// file), the articles are sorted newest first, and every page is
/// rendered. `RenderFailed` is the only other failure, and it comes
/// only when one of the owed renders returns nothing for the build's
/// article list (`spec_render_failure`); success gives
/// `spec_outputs_ok`.
pub fn build_site(inp: &BuildInputs) -> (r: Result<BuildOutputs, BuildError>)
    ensures
        r matches Err(e) ==> (e matches BuildError::TemplateLoadFailed || e matches BuildError::MalformedFrontMatter(_) || e matches BuildError::RenderFailed),
        (r matches Err(e) && e matches BuildError::TemplateLoadFailed) <==> !spec_templates_ok(*inp),
        spec_templates_ok(*inp) ==> ((spec_first_bad(pairs_view(inp.articles@), 0) is Some)
            == spec_is_malformed_err(r)),
        (match r {
            Err(BuildError::MalformedFrontMatter(f)) => spec_first_bad(pairs_view(inp.articles@), 0)
                matches Some(i) && f@ == pairs_view(inp.articles@)[i].0,
            _ => true,
        }),
        (match r {
            Err(BuildError::RenderFailed) => exists|
                arts: Seq<ArticleView>,
                built: Seq<ArticleView>,
                cards: Seq<Seq<char>>,
            | spec_collected(*inp, arts, built) && spec_render_failure(*inp, arts, cards),
            _ => true,
        }),
        r matches Ok(out) ==> spec_outputs_ok(*inp, out),
{
    if !templates::template_ok(inp.article_template.as_str()) {
        return Err(BuildError::TemplateLoadFailed);
    }
    if !templates::template_ok(inp.main_template.as_str()) {
        return Err(BuildError::TemplateLoadFailed);
    }
    if !templates::template_ok(inp.list_template.as_str()) {
        return Err(BuildError::TemplateLoadFailed);
    }
    if !templates::template_ok(inp.card_template.as_str()) {
        return Err(BuildError::TemplateLoadFailed);
    }
    let css_name = fingerprint::stylesheet_output_name(inp.stylesheet_source.as_str());
    let mut css_ref = "../".to_owned();
    css_ref.append(css_name.as_str());
    let arts0 = match collect_articles(&inp.articles, css_ref.as_str(), inp.generated.as_str()) {
        Err(e) => {
            return Err(e);
        },
        Ok(a) => a,
    };
    let ghost built_dv = arts0.deep_view();
    let sorted = articles::sort_articles_desc(arts0);
    let ghost arts_dv = sorted.deep_view();
    proof {
        assert(css_ref@ == "../"@ + spec_stylesheet_name(inp.stylesheet_source@));
        assert(spec_collected(*inp, arts_dv, built_dv));
    }
    let n = sorted.len();
    let mut pages: Vec<(String, String)> = Vec::new();
    let mut cards: Vec<String> = Vec::new();
    let mut i: usize = 0;
    while i < n
        invariant
            i <= n,
            n == sorted@.len(),
            arts_dv == sorted.deep_view(),
            spec_templates_ok(*inp),
            spec_first_bad(pairs_view(inp.articles@), 0) is None,
            spec_collected(*inp, arts_dv, built_dv),
            css_ref@ == "../"@ + spec_stylesheet_name(inp.stylesheet_source@),
            pages@.len() == i,
            cards@.len() == i,
            forall|k: int|
                0 <= k < i ==> (#[trigger] pairs_view(pages@)[k]).0 == spec_article_filename(
                    arts_dv[k],
                ) && hbs_render_spec(
                    inp.article_template@,
                    spec_article_data(arts_dv[k]),
                    Seq::<(Seq<char>, Seq<Seq<char>>)>::empty(),
                ) == Some(pairs_view(pages@)[k].1),
            forall|k: int|
                0 <= k < i ==> hbs_render_spec(
                    inp.card_template@,
                    spec_card_data(spec_card_of(arts_dv[k])),
                    Seq::<(Seq<char>, Seq<Seq<char>>)>::empty(),
                ) == Some(#[trigger] cards.deep_view()[k]),
        decreases n - i,
    {
        proof {
            assert(arts_dv[i as int] == sorted@[i as int]@);
        }
        let page = match articles::render_article_page(inp.article_template.as_str(), &sorted[i]) {
            None => {
                proof {
                    assert(hbs_render_spec(
                        inp.article_template@,
                        spec_article_data(arts_dv[i as int]),
                        Seq::<(Seq<char>, Seq<Seq<char>>)>::empty(),
                    ) is None);
                    assert(spec_render_failure(*inp, arts_dv, cards.deep_view()));
                }
                return Err(BuildError::RenderFailed);
            },
            Some(p) => p,
        };
        let fname = articles::article_filename(&sorted[i]);
        let card_rec = articles::card_of(&sorted[i]);
        let card = match articles::render_card(inp.card_template.as_str(), &card_rec) {
            None => {
                proof {
                    assert(hbs_render_spec(
                        inp.card_template@,
                        spec_card_data(spec_card_of(arts_dv[i as int])),
                        Seq::<(Seq<char>, Seq<Seq<char>>)>::empty(),
                    ) is None);
                    assert(spec_render_failure(*inp, arts_dv, cards.deep_view()));
                }
                return Err(BuildError::RenderFailed);
            },
            Some(c) => c,
        };
        let ghost prev_pages = pairs_view(pages@);
        let ghost prev_cards = cards.deep_view();
        pages.push((fname, page));
        cards.push(card);
        proof {
            assert(pairs_view(pages@) =~~= prev_pages.push((fname@, page@)));
            assert(cards.deep_view() =~~= prev_cards.push(card@));
        }
        i += 1;
    }
    let ghost cards_dv = cards.deep_view();
    let list_page = match articles::render_list_page(
        inp.list_template.as_str(),
        cards,
        inp.generated.as_str(),
        css_ref.as_str(),
    ) {
        None => {
            proof {
                assert(spec_rendered_cards(*inp, arts_dv, cards_dv));
                assert(spec_render_failure(*inp, arts_dv, cards_dv));
            }
            return Err(BuildError::RenderFailed);
        },
        Some(p) => p,
    };
    let main_page = match articles::render_main_page(
        inp.main_template.as_str(),
        inp.generated.as_str(),
        css_name.as_str(),
    ) {
        None => {
            proof {
                assert(spec_render_failure(*inp, arts_dv, cards_dv));
            }
            return Err(BuildError::RenderFailed);
        },
        Some(p) => p,
    };
    let out = BuildOutputs { stylesheet_name: css_name, article_pages: pages, list_page, main_page };
    proof {
        assert(spec_build_lists_ok(*inp, out, arts_dv, built_dv, cards_dv));
        assert(spec_outputs_ok(*inp, out));
    }
    Ok(out)
}

} // verus!
