//! Article records: the typed data one source file becomes, the
//! listing-card projection of it, output file names, the binding of both
//! into their templates, and the newest-first ordering of a build's
//! articles.

use vstd::prelude::*;
use crate::frontmatter::{spec_display_date, FrontMatter, FrontMatterView};
use crate::strutil;
use crate::strutil::{lower_of, spec_join, spec_lex_le};
use crate::templates;
use crate::templates::{hbs_render_spec, lists_view, pairs_view};

verus! {

/// One fully built article: its metadata (tags already joined for
/// display), rendered body HTML, the build timestamp, and the reference
/// to the fingerprinted stylesheet.
pub struct Article {
    pub title: String,
    pub tagline: String,
    pub tags: String,
    pub date: String,
    pub display_date: String,
    pub author: String,
    pub lang: String,
    pub body_html: String,
    pub generated: String,
    pub stylesheet: String,
}

/// The mathematical value of an `Article`.
pub struct ArticleView {
    pub title: Seq<char>,
    pub tagline: Seq<char>,
    pub tags: Seq<char>,
    pub date: Seq<char>,
    pub display_date: Seq<char>,
    pub author: Seq<char>,
    pub lang: Seq<char>,
    pub body_html: Seq<char>,
    pub generated: Seq<char>,
    pub stylesheet: Seq<char>,
}

impl View for Article {
    type V = ArticleView;

    open spec fn view(&self) -> ArticleView {
        ArticleView {
            title: self.title@,
            tagline: self.tagline@,
            tags: self.tags@,
            date: self.date@,
            display_date: self.display_date@,
            author: self.author@,
            lang: self.lang@,
            body_html: self.body_html@,
            generated: self.generated@,
            stylesheet: self.stylesheet@,
        }
    }
}

impl DeepView for Article {
    type V = ArticleView;

    open spec fn deep_view(&self) -> ArticleView {
        self.view()
    }
}

/// The article built from parsed front matter, its rendered body, the
/// stylesheet reference and the build timestamp: tags joined with
/// `", "`, the display date derived from the edit state, the raw date
/// kept for naming and ordering.
pub open spec fn spec_article_of(
    fm: FrontMatterView,
    html: Seq<char>,
    stylesheet: Seq<char>,
    generated: Seq<char>,
) -> ArticleView {
    ArticleView {
        title: fm.title,
        tagline: fm.tagline,
        tags: spec_join(fm.tags, ", "@),
        date: fm.date,
        display_date: spec_display_date(fm),
        author: fm.author,
        lang: fm.lang,
        body_html: html,
        generated: generated,
        stylesheet: stylesheet,
    }
}

/// Builds the article record for one parsed source file.
pub fn article_of(fm: &FrontMatter, body_html: String, stylesheet: &str, generated: &str) -> (r:
    Article)
    requires
        fm@.wf(),
    ensures
        r@ == spec_article_of(fm@, body_html@, stylesheet@, generated@),
{
    let mut tag_vecs: Vec<Vec<char>> = Vec::new();
    let n = fm.tags.len();
    let mut i: usize = 0;
    while i < n
        invariant
            i <= n,
            n == fm.tags@.len(),
            tag_vecs.deep_view().len() == i,
            forall|k: int| 0 <= k < i ==> tag_vecs.deep_view()[k] == fm.tags.deep_view()[k],
        decreases n - i,
    {
        let ghost prev = tag_vecs.deep_view();
        tag_vecs.push(strutil::str_to_chars(fm.tags[i].as_str()));
        proof {
            assert(tag_vecs.deep_view() =~~= prev.push(fm.tags@[i as int]@));
        }
        i += 1;
    }
    proof {
        assert(tag_vecs.deep_view() =~~= fm.tags.deep_view());
    }
    let sep = strutil::str_to_chars(", ");
    let tags_chars = strutil::join_chars(&tag_vecs, &sep);
    let tags = strutil::chars_to_string(&tags_chars);
    Article {
        title: fm.title.clone(),
        tagline: fm.tagline.clone(),
        tags,
        date: fm.date.clone(),
        display_date: fm.display_date(),
        author: fm.author.clone(),
        lang: fm.lang.clone(),
        body_html,
        generated: generated.to_owned(),
        stylesheet: stylesheet.to_owned(),
    }
}

/// The output file name of an article page:
/// `{date}-{lowercased title}.html`.
pub open spec fn spec_article_filename(a: ArticleView) -> Seq<char> {
    a.date + "-"@ + lower_of(a.title) + ".html"@
}

/// The file name this article's page is written under.
pub fn article_filename(a: &Article) -> (r: String)
    ensures
        r@ == spec_article_filename(a@),
{
    let mut r = a.date.clone();
    r.append("-");
    let lower = strutil::lowercase(a.title.as_str());
    r.append(lower.as_str());
    r.append(".html");
    r
}

/// The reduced projection of an article shown on the listing page.
pub struct ArticleCard {
    pub article_link: String,
    pub title: String,
    pub tagline: String,
    pub tags: String,
    pub date: String,
}

/// The mathematical value of an `ArticleCard`.
pub struct ArticleCardView {
    pub article_link: Seq<char>,
    pub title: Seq<char>,
    pub tagline: Seq<char>,
    pub tags: Seq<char>,
    pub date: Seq<char>,
}

impl View for ArticleCard {
    type V = ArticleCardView;

    open spec fn view(&self) -> ArticleCardView {
        ArticleCardView {
            article_link: self.article_link@,
            title: self.title@,
            tagline: self.tagline@,
            tags: self.tags@,
            date: self.date@,
        }
    }
}

/// The card of an article: it links the article's page and shows the
/// display date.
pub open spec fn spec_card_of(a: ArticleView) -> ArticleCardView {
    ArticleCardView {
        article_link: spec_article_filename(a),
        title: a.title,
        tagline: a.tagline,
        tags: a.tags,
        date: a.display_date,
    }
}

/// Builds the listing card for one article.
pub fn card_of(a: &Article) -> (r: ArticleCard)
    ensures
        r@ == spec_card_of(a@),
{
    ArticleCard {
        article_link: article_filename(a),
        title: a.title.clone(),
        tagline: a.tagline.clone(),
        tags: a.tags.clone(),
        date: a.display_date.clone(),
    }
}

/// The data the article template sees.
pub open spec fn spec_article_data(a: ArticleView) -> Seq<(Seq<char>, Seq<char>)> {
    seq![
        ("title"@, a.title),
        ("tagline"@, a.tagline),
        ("tags"@, a.tags),
        ("date"@, a.display_date),
        ("author"@, a.author),
        ("lang"@, a.lang),
        ("article"@, a.body_html),
        ("generated"@, a.generated),
        ("stylesheet"@, a.stylesheet),
    ]
}

/// Renders one article's page: `hbs_render_spec` of the template and
/// the article's data.
pub fn render_article_page(tpl: &str, a: &Article) -> (r: Option<String>)
    ensures
        (r is Some) == (hbs_render_spec(
            tpl@,
            spec_article_data(a@),
            Seq::<(Seq<char>, Seq<Seq<char>>)>::empty(),
        ) is Some),
        r matches Some(s) ==> hbs_render_spec(
            tpl@,
            spec_article_data(a@),
            Seq::<(Seq<char>, Seq<Seq<char>>)>::empty(),
        ) == Some(s@),
{
    let mut scalars: Vec<(String, String)> = Vec::new();
    scalars.push(("title".to_owned(), a.title.clone()));
    scalars.push(("tagline".to_owned(), a.tagline.clone()));
    scalars.push(("tags".to_owned(), a.tags.clone()));
    scalars.push(("date".to_owned(), a.display_date.clone()));
    scalars.push(("author".to_owned(), a.author.clone()));
    scalars.push(("lang".to_owned(), a.lang.clone()));
    scalars.push(("article".to_owned(), a.body_html.clone()));
    scalars.push(("generated".to_owned(), a.generated.clone()));
    scalars.push(("stylesheet".to_owned(), a.stylesheet.clone()));
    let lists: Vec<(String, Vec<String>)> = Vec::new();
    proof {
        assert(pairs_view(scalars@) =~= spec_article_data(a@));
        assert(lists_view(lists@) =~= Seq::<(Seq<char>, Seq<Seq<char>>)>::empty());
    }
    templates::render_template(tpl, &scalars, &lists)
}

/// The data the card template sees.
pub open spec fn spec_card_data(c: ArticleCardView) -> Seq<(Seq<char>, Seq<char>)> {
    seq![
        ("article_link"@, c.article_link),
        ("title"@, c.title),
        ("tagline"@, c.tagline),
        ("tags"@, c.tags),
        ("date"@, c.date),
    ]
}

/// Renders one listing card: `hbs_render_spec` of the template and the
/// card's data.
pub fn render_card(tpl: &str, c: &ArticleCard) -> (r: Option<String>)
    ensures
        (r is Some) == (hbs_render_spec(
            tpl@,
            spec_card_data(c@),
            Seq::<(Seq<char>, Seq<Seq<char>>)>::empty(),
        ) is Some),
        r matches Some(s) ==> hbs_render_spec(
            tpl@,
            spec_card_data(c@),
            Seq::<(Seq<char>, Seq<Seq<char>>)>::empty(),
        ) == Some(s@),
{
    let mut scalars: Vec<(String, String)> = Vec::new();
    scalars.push(("article_link".to_owned(), c.article_link.clone()));
    scalars.push(("title".to_owned(), c.title.clone()));
    scalars.push(("tagline".to_owned(), c.tagline.clone()));
    scalars.push(("tags".to_owned(), c.tags.clone()));
    scalars.push(("date".to_owned(), c.date.clone()));
    let lists: Vec<(String, Vec<String>)> = Vec::new();
    proof {
        assert(pairs_view(scalars@) =~= spec_card_data(c@));
        assert(lists_view(lists@) =~= Seq::<(Seq<char>, Seq<Seq<char>>)>::empty());
    }
    templates::render_template(tpl, &scalars, &lists)
}

/// The scalar data the listing and home templates see.
pub open spec fn spec_page_scalars(generated: Seq<char>, stylesheet: Seq<char>) -> Seq<
    (Seq<char>, Seq<char>),
> {
    seq![("generated"@, generated), ("stylesheet"@, stylesheet)]
}

/// The list data the listing template sees: the rendered cards.
pub open spec fn spec_cards_data(cards: Seq<Seq<char>>) -> Seq<(Seq<char>, Seq<Seq<char>>)> {
    seq![("article_cards"@, cards)]
}

/// Renders the listing page from the rendered cards, the build
/// timestamp and the stylesheet reference.
pub fn render_list_page(tpl: &str, cards: Vec<String>, generated: &str, stylesheet: &str) -> (r:
    Option<String>)
    ensures
        (r is Some) == (hbs_render_spec(
            tpl@,
            spec_page_scalars(generated@, stylesheet@),
            spec_cards_data(cards.deep_view()),
        ) is Some),
        r matches Some(s) ==> hbs_render_spec(
            tpl@,
            spec_page_scalars(generated@, stylesheet@),
            spec_cards_data(cards.deep_view()),
        ) == Some(s@),
{
    let ghost cards_view = cards.deep_view();
    let mut scalars: Vec<(String, String)> = Vec::new();
    scalars.push(("generated".to_owned(), generated.to_owned()));
    scalars.push(("stylesheet".to_owned(), stylesheet.to_owned()));
    let mut lists: Vec<(String, Vec<String>)> = Vec::new();
    lists.push(("article_cards".to_owned(), cards));
    proof {
        assert(pairs_view(scalars@) =~= spec_page_scalars(generated@, stylesheet@));
        assert(lists_view(lists@) =~= spec_cards_data(cards_view));
    }
    templates::render_template(tpl, &scalars, &lists)
}

/// Renders the home page from the build timestamp and the stylesheet
/// name.
pub fn render_main_page(tpl: &str, generated: &str, stylesheet: &str) -> (r: Option<String>)
    ensures
        (r is Some) == (hbs_render_spec(
            tpl@,
            spec_page_scalars(generated@, stylesheet@),
            Seq::<(Seq<char>, Seq<Seq<char>>)>::empty(),
        ) is Some),
        r matches Some(s) ==> hbs_render_spec(
            tpl@,
            spec_page_scalars(generated@, stylesheet@),
            Seq::<(Seq<char>, Seq<Seq<char>>)>::empty(),
        ) == Some(s@),
{
    let mut scalars: Vec<(String, String)> = Vec::new();
    scalars.push(("generated".to_owned(), generated.to_owned()));
    scalars.push(("stylesheet".to_owned(), stylesheet.to_owned()));
    let lists: Vec<(String, Vec<String>)> = Vec::new();
    proof {
        assert(pairs_view(scalars@) =~= spec_page_scalars(generated@, stylesheet@));
        assert(lists_view(lists@) =~= Seq::<(Seq<char>, Seq<Seq<char>>)>::empty());
    }
    templates::render_template(tpl, &scalars, &lists)
}

/// Newest first: every earlier article's date is at least every later
/// one's, by plain string comparison (descending chronological order for
/// ISO `YYYY-MM-DD` dates).
pub open spec fn spec_sorted_desc(s: Seq<ArticleView>) -> bool {
    forall|i: int, j: int| 0 <= i < j < s.len() ==> spec_lex_le(s[j].date, s[i].date)
}

/// Sorts a build's articles newest first by their raw date string,
/// keeping exactly the same articles.
pub fn sort_articles_desc(v: Vec<Article>) -> (r: Vec<Article>)
    ensures
        spec_sorted_desc(r.deep_view()),
        r@.to_multiset() == v@.to_multiset(),
        r.deep_view().to_multiset() == v.deep_view().to_multiset(),
{
    broadcast use vstd::seq_lib::group_to_multiset_ensures;

    let ghost orig_dv = v.deep_view();
    let mut rest = v;
    let mut out: Vec<Article> = Vec::new();
    proof {
        assert(out@.to_multiset().add(rest@.to_multiset()) =~= v@.to_multiset());
        assert(out.deep_view().to_multiset().add(rest.deep_view().to_multiset())
            =~= orig_dv.to_multiset());
    }
    while rest.len() > 0
        invariant
            out@.to_multiset().add(rest@.to_multiset()) == v@.to_multiset(),
            out.deep_view().to_multiset().add(rest.deep_view().to_multiset())
                == orig_dv.to_multiset(),
            spec_sorted_desc(out.deep_view()),
            forall|a: int, b: int|
                0 <= a < out@.len() && 0 <= b < rest@.len() ==> #[trigger] spec_lex_le(
                    rest.deep_view()[b].date,
                    out.deep_view()[a].date,
                ),
        decreases rest@.len(),
    {
        let mut mi: usize = 0;
        let mut k: usize = 1;
        proof {
            strutil::lemma_lex_le_refl(rest.deep_view()[0].date);
        }
        while k < rest.len()
            invariant
                mi < k <= rest@.len(),
                forall|t: int|
                    0 <= t < k ==> spec_lex_le(
                        #[trigger] rest.deep_view()[t].date,
                        rest.deep_view()[mi as int].date,
                    ),
            decreases rest@.len() - k,
        {
            proof {
                strutil::lemma_lex_le_total(rest.deep_view()[k as int].date, rest.deep_view()[mi as int].date);
            }
            if !strutil::lex_le(rest[k].date.as_str(), rest[mi].date.as_str()) {
                proof {
                    assert forall|t: int| 0 <= t < k implies spec_lex_le(
                        rest.deep_view()[t].date,
                        rest.deep_view()[k as int].date,
                    ) by {
                        strutil::lemma_lex_le_trans(
                            rest.deep_view()[t].date,
                            rest.deep_view()[mi as int].date,
                            rest.deep_view()[k as int].date,
                        );
                    }
                }
                mi = k;
            }
            proof {
                strutil::lemma_lex_le_refl(rest.deep_view()[mi as int].date);
            }
            k += 1;
        }
        proof {
            strutil::lemma_lex_le_refl(rest.deep_view()[mi as int].date);
        }
        let ghost old_rest = rest@;
        let ghost old_rest_dv = rest.deep_view();
        let ghost old_out = out@;
        let ghost old_dv = out.deep_view();
        let m = rest.remove(mi);
        out.push(m);
        proof {
            old_rest.to_multiset_ensures();
            old_out.to_multiset_ensures();
            assert(old_rest.contains(old_rest[mi as int]));
            assert(old_rest.to_multiset().count(m) > 0);
            assert(out@.to_multiset() =~= old_out.to_multiset().insert(m));
            assert(rest@.to_multiset() =~= old_rest.to_multiset().remove(m));
            assert(out@.to_multiset().add(rest@.to_multiset()) =~= old_out.to_multiset().add(
                old_rest.to_multiset(),
            ));
            assert(out.deep_view() =~~= old_dv.push(m@));
            assert(m@ == old_rest_dv[mi as int]);
            old_rest_dv.to_multiset_ensures();
            old_dv.to_multiset_ensures();
            assert(rest.deep_view() =~~= old_rest_dv.remove(mi as int));
            assert(old_rest_dv.contains(old_rest_dv[mi as int]));
            assert(old_rest_dv.to_multiset().count(m@) > 0);
            assert(out.deep_view().to_multiset() =~= old_dv.to_multiset().insert(m@));
            assert(rest.deep_view().to_multiset() =~= old_rest_dv.to_multiset().remove(m@));
            assert(out.deep_view().to_multiset().add(rest.deep_view().to_multiset())
                =~= old_dv.to_multiset().add(old_rest_dv.to_multiset()));
            assert forall|b: int| 0 <= b < rest@.len() implies rest.deep_view()[b]
                == if b < mi {
                old_rest_dv[b]
            } else {
                old_rest_dv[b + 1]
            } by {
                if b < mi {
                    assert(rest@[b] == old_rest[b]);
                } else {
                    assert(rest@[b] == old_rest[b + 1]);
                }
            }
            assert forall|i: int, j: int|
                0 <= i < j < out.deep_view().len() implies spec_lex_le(
                out.deep_view()[j].date,
                out.deep_view()[i].date,
            ) by {
                assert(out.deep_view()[i] == old_dv[i]);
                if j < old_dv.len() {
                    assert(out.deep_view()[j] == old_dv[j]);
                    assert(spec_lex_le(old_dv[j].date, old_dv[i].date));
                } else {
                    assert(out.deep_view()[j] == m@);
                    assert(spec_lex_le(old_rest_dv[mi as int].date, old_dv[i].date));
                }
            }
            assert(spec_sorted_desc(out.deep_view()));
            assert forall|a: int, b: int|
                0 <= a < out@.len() && 0 <= b < rest@.len() implies #[trigger] spec_lex_le(
                rest.deep_view()[b].date,
                out.deep_view()[a].date,
            ) by {
                let e = rest.deep_view()[b];
                assert(e == if b < mi {
                    old_rest_dv[b]
                } else {
                    old_rest_dv[b + 1]
                });
                if a < old_dv.len() {
                    assert(out.deep_view()[a] == old_dv[a]);
                    if b < mi {
                        assert(spec_lex_le(old_rest_dv[b].date, old_dv[a].date));
                    } else {
                        assert(spec_lex_le(old_rest_dv[b + 1].date, old_dv[a].date));
                    }
                } else {
                    assert(out.deep_view()[a] == m@);
                    if b < mi {
                        assert(spec_lex_le(old_rest_dv[b].date, old_rest_dv[mi as int].date));
                    } else {
                        assert(spec_lex_le(old_rest_dv[b + 1].date, old_rest_dv[mi as int].date));
                    }
                }
            }
        }
    }
    proof {
        assert(out@.to_multiset().add(rest@.to_multiset()) =~= out@.to_multiset());
    }
    out
}

} // verus!
