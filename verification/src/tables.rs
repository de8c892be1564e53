//! Post-processing of rendered HTML: every `<table>` block is wrapped in
//! a `<div class="table-container">` so style rules can make wide tables
//! scroll. The transform is a plain text substitution applied after
//! serialization.

use vstd::prelude::*;
use crate::strutil;

verus! {

/// `s` with every (non-overlapping, leftmost-first) occurrence of `pat`
/// replaced by `rep`.
pub open spec fn spec_replace(s: Seq<char>, pat: Seq<char>, rep: Seq<char>) -> Seq<char>
    decreases s.len(),
    when pat.len() > 0
{
    if s.len() < pat.len() {
        s
    } else if s.subrange(0, pat.len() as int) == pat {
        rep + spec_replace(s.skip(pat.len() as int), pat, rep)
    } else {
        seq![s[0]] + spec_replace(s.drop_first(), pat, rep)
    }
}

/// Whether `pat` occurs in `s` starting at `i`.
pub open spec fn spec_contains_at(s: Seq<char>, pat: Seq<char>, i: int) -> bool {
    0 <= i && i + pat.len() <= s.len() && s.subrange(i, i + pat.len()) == pat
}

/// Whether `pat` occurs anywhere in `s`.
pub open spec fn spec_contains(s: Seq<char>, pat: Seq<char>) -> bool {
    exists|i: int| spec_contains_at(s, pat, i)
}

/// A sequence without any occurrence of `pat` is left unchanged.
pub proof fn lemma_replace_absent(s: Seq<char>, pat: Seq<char>, rep: Seq<char>)
    requires
        pat.len() > 0,
        !spec_contains(s, pat),
    ensures
        spec_replace(s, pat, rep) == s,
    decreases s.len(),
{
    if s.len() >= pat.len() {
        assert(!spec_contains_at(s, pat, 0));
        assert forall|i: int| spec_contains_at(s.drop_first(), pat, i) implies false by {
            assert(s.drop_first().subrange(i, i + pat.len()) =~= s.subrange(
                i + 1,
                i + 1 + pat.len(),
            ));
            assert(spec_contains_at(s, pat, i + 1));
        }
        assert(!spec_contains(s.drop_first(), pat));
        lemma_replace_absent(s.drop_first(), pat, rep);
        assert(seq![s[0]] + s.drop_first() =~= s);
    }
}

/// Replacing in `a + pat + tail` when no occurrence of `pat` starts
/// inside `a`: `a` is copied, the marked occurrence becomes `rep`, and
/// the tail is processed on its own.
pub proof fn lemma_replace_at_marker(a: Seq<char>, pat: Seq<char>, rep: Seq<char>, tail: Seq<
    char,
>)
    requires
        pat.len() > 0,
        forall|i: int| 0 <= i < a.len() ==> !spec_contains_at(a + pat + tail, pat, i),
    ensures
        spec_replace(a + pat + tail, pat, rep) == a + rep + spec_replace(tail, pat, rep),
    decreases a.len(),
{
    let s = a + pat + tail;
    if a.len() == 0 {
        assert(s =~= pat + tail);
        assert(s.subrange(0, pat.len() as int) =~= pat);
        assert(s.skip(pat.len() as int) =~= tail);
        assert(a + rep + spec_replace(tail, pat, rep) =~= rep + spec_replace(tail, pat, rep));
    } else {
        assert(s.len() >= pat.len());
        assert(!spec_contains_at(s, pat, 0));
        assert(s.subrange(0, pat.len() as int) != pat);
        let s2 = a.drop_first() + pat + tail;
        assert(s.drop_first() =~= s2);
        assert forall|i: int| 0 <= i < a.drop_first().len() implies !spec_contains_at(
            s2,
            pat,
            i,
        ) by {
            if spec_contains_at(s2, pat, i) {
                assert(s2.subrange(i, i + pat.len()) =~= s.subrange(i + 1, i + 1 + pat.len()));
                assert(spec_contains_at(s, pat, i + 1));
            }
        }
        lemma_replace_at_marker(a.drop_first(), pat, rep, tail);
        assert(spec_replace(s, pat, rep) == seq![s[0]] + (a.drop_first() + rep + spec_replace(
            tail,
            pat,
            rep,
        )));
        assert(seq![s[0]] + (a.drop_first() + rep + spec_replace(tail, pat, rep)) =~= a + rep
            + spec_replace(tail, pat, rep));
    }
}

/// Replacing the single occurrence of `pat`: nothing before or after it
/// matches, so only the marked spot changes.
pub proof fn lemma_replace_single(a: Seq<char>, pat: Seq<char>, rep: Seq<char>, tail: Seq<char>)
    requires
        pat.len() > 0,
        forall|i: int| 0 <= i < a.len() ==> !spec_contains_at(a + pat + tail, pat, i),
        !spec_contains(tail, pat),
    ensures
        spec_replace(a + pat + tail, pat, rep) == a + rep + tail,
{
    lemma_replace_at_marker(a, pat, rep, tail);
    lemma_replace_absent(tail, pat, rep);
}

fn prefix_at(v: &Vec<char>, i: usize, pat: &Vec<char>) -> (r: bool)
    requires
        i <= v@.len(),
    ensures
        r == spec_contains_at(v@, pat@, i as int),
{
    let pn = pat.len();
    let n = v.len();
    if n - i < pn {
        return false;
    }
    let mut k: usize = 0;
    while k < pn
        invariant
            k <= pn,
            pn == pat@.len(),
            n == v@.len(),
            i + pn <= n,
            v@.subrange(i as int, i + k) == pat@.subrange(0, k as int),
        decreases pn - k,
    {
        if v[i + k] != pat[k] {
            proof {
                assert(v@.subrange(i as int, i + pn)[k as int] == v@[i + k]);
            }
            return false;
        }
        proof {
            assert(v@.subrange(i as int, i + k + 1) =~= v@.subrange(i as int, i + k).push(
                v@[i + k],
            ));
            assert(pat@.subrange(0, k + 1) =~= pat@.subrange(0, k as int).push(pat@[k as int]));
        }
        k += 1;
    }
    proof {
        assert(pat@.subrange(0, pn as int) =~= pat@);
    }
    true
}

/// `v` with every occurrence of `pat` replaced by `rep`, per
/// `spec_replace`.
pub fn replace_chars(v: &Vec<char>, pat: &Vec<char>, rep: &Vec<char>) -> (r: Vec<char>)
    requires
        pat@.len() > 0,
    ensures
        r@ == spec_replace(v@, pat@, rep@),
{
    let n = v.len();
    let pn = pat.len();
    let mut out: Vec<char> = Vec::new();
    let mut i: usize = 0;
    proof {
        assert(v@.skip(0) =~= v@);
        assert(out@ + spec_replace(v@, pat@, rep@) =~= spec_replace(v@, pat@, rep@));
    }
    while i < n
        invariant
            i <= n,
            n == v@.len(),
            pn == pat@.len(),
            pn > 0,
            spec_replace(v@, pat@, rep@) == out@ + spec_replace(v@.skip(i as int), pat@, rep@),
        decreases n - i,
    {
        let ghost rest = v@.skip(i as int);
        let ghost prev_out = out@;
        if prefix_at(v, i, pat) {
            strutil::push_all(&mut out, rep);
            proof {
                assert(rest.subrange(0, pn as int) =~= v@.subrange(i as int, i + pn));
                assert(rest.skip(pn as int) =~= v@.skip(i + pn));
                assert(out@ + spec_replace(v@.skip(i + pn), pat@, rep@) =~= prev_out + (rep@
                    + spec_replace(v@.skip(i + pn), pat@, rep@)));
            }
            i += pn;
        } else {
            out.push(v[i]);
            proof {
                assert(rest[0] == v@[i as int]);
                assert(rest.drop_first() =~= v@.skip(i + 1));
                if rest.len() >= pn {
                    assert(rest.subrange(0, pn as int) =~= v@.subrange(i as int, i + pn));
                    assert(rest.subrange(0, pn as int) != pat@);
                } else {
                    assert(v@.skip(i + 1).len() < pn);
                    assert(rest =~= seq![rest[0]] + rest.drop_first());
                    assert(spec_replace(v@.skip(i + 1), pat@, rep@) == v@.skip(i + 1));
                }
                assert(out@ + spec_replace(v@.skip(i + 1), pat@, rep@) =~= prev_out + (seq![
                    rest[0],
                ] + spec_replace(v@.skip(i + 1), pat@, rep@)));
            }
            i += 1;
        }
    }
    proof {
        assert(v@.skip(n as int) =~= Seq::<char>::empty());
    }
    out
}

/// The opening table tag the renderer emits.
pub open spec fn table_open() -> Seq<char> {
    "<table>"@
}

/// The closing table tag the renderer emits.
pub open spec fn table_close() -> Seq<char> {
    "</table>"@
}

/// What an opening table tag becomes: the container div plus the tag.
pub open spec fn wrapped_open() -> Seq<char> {
    "<div class=\"table-container\">\n<table>"@
}

/// What a closing table tag becomes: the tag plus the closing div.
pub open spec fn wrapped_close() -> Seq<char> {
    "</table>\n</div>"@
}

/// Rendered HTML with every table block wrapped in the container div:
/// first every `<table>` gains the opening wrapper, then every
/// `</table>` gains the closing one.
pub open spec fn spec_wrap_tables(html: Seq<char>) -> Seq<char> {
    spec_replace(spec_replace(html, table_open(), wrapped_open()), table_close(), wrapped_close())
}

/// Wraps every table of a rendered body in the container div, per
/// `spec_wrap_tables`.
pub fn wrap_tables(html: &str) -> (r: String)
    ensures
        r@ == spec_wrap_tables(html@),
{
    let chars = strutil::str_to_chars(html);
    let open_pat = strutil::str_to_chars("<table>");
    let open_rep = strutil::str_to_chars("<div class=\"table-container\">\n<table>");
    let close_pat = strutil::str_to_chars("</table>");
    let close_rep = strutil::str_to_chars("</table>\n</div>");
    proof {
        reveal_strlit("<table>");
        reveal_strlit("</table>");
    }
    let once = replace_chars(&chars, &open_pat, &open_rep);
    let twice = replace_chars(&once, &close_pat, &close_rep);
    strutil::chars_to_string(&twice)
}

/// HTML without any table marker is left exactly as it was.
pub proof fn lemma_wrap_tables_no_table(html: Seq<char>)
    requires
        !spec_contains(html, table_open()),
        !spec_contains(html, table_close()),
    ensures
        spec_wrap_tables(html) == html,
{
    reveal_strlit("<table>");
    reveal_strlit("</table>");
    lemma_replace_absent(html, table_open(), wrapped_open());
    lemma_replace_absent(html, table_close(), wrapped_close());
}

/// The wrapping law for a body holding one table block: in
/// `a + <table> + m + </table> + b` where the table markers occur only
/// at the marked spots (also after the first rewrite), post-processing
/// yields `a + <div class="table-container">\n<table> + m +
/// </table>\n</div> + b`: the table is wrapped and all else is kept.
pub proof fn lemma_wrap_tables_single(a: Seq<char>, m: Seq<char>, b: Seq<char>)
    requires
        forall|i: int|
            0 <= i < a.len() ==> !spec_contains_at(
                a + table_open() + (m + table_close() + b),
                table_open(),
                i,
            ),
        !spec_contains(m + table_close() + b, table_open()),
        forall|i: int|
            0 <= i < (a + wrapped_open() + m).len() ==> !spec_contains_at(
                (a + wrapped_open() + m) + table_close() + b,
                table_close(),
                i,
            ),
        !spec_contains(b, table_close()),
    ensures
        spec_wrap_tables(a + table_open() + m + table_close() + b) == a + wrapped_open() + m
            + wrapped_close() + b,
{
    reveal_strlit("<table>");
    reveal_strlit("</table>");
    reveal_strlit("</table>\n</div>");
    let s = a + table_open() + m + table_close() + b;
    let tail1 = m + table_close() + b;
    assert(s =~= a + table_open() + tail1);
    lemma_replace_single(a, table_open(), wrapped_open(), tail1);
    let s2 = a + wrapped_open() + tail1;
    let a2 = a + wrapped_open() + m;
    assert(s2 =~= a2 + table_close() + b);
    lemma_replace_single(a2, table_close(), wrapped_close(), b);
    assert(spec_wrap_tables(s) == a2 + wrapped_close() + b);
    assert(a2 + wrapped_close() + b =~= a + wrapped_open() + m + wrapped_close() + b);
}

/// The wrapping law in its plain form: a body made of one table block
/// whose surrounding text and cell content use no `<` character is
/// post-processed into exactly the same text with the table wrapped in
/// the container div.
pub proof fn lemma_wrap_tables_plain(a: Seq<char>, m: Seq<char>, b: Seq<char>)
    requires
        forall|i: int| 0 <= i < a.len() ==> a[i] != '<',
        forall|i: int| 0 <= i < m.len() ==> m[i] != '<',
        forall|i: int| 0 <= i < b.len() ==> b[i] != '<',
    ensures
        spec_wrap_tables(a + table_open() + m + table_close() + b) == a + wrapped_open() + m
            + wrapped_close() + b,
{
    reveal_strlit("<table>");
    reveal_strlit("</table>");
    reveal_strlit("<div class=\"table-container\">\n<table>");
    let op = table_open();
    let cl = table_close();
    let wo = wrapped_open();
    assert(op.len() == 7 && cl.len() == 8 && wo.len() == 37);
    assert(forall|j: int| 0 <= j < 8 && cl[j] == '<' ==> j == 0);
    assert(forall|j: int| 0 <= j < 37 && wo[j] == '<' ==> j == 0 || j == 30);
    let tail1 = m + cl + b;
    let s = a + op + tail1;
    assert forall|i: int| 0 <= i < a.len() implies !spec_contains_at(s, op, i) by {
        if spec_contains_at(s, op, i) {
            assert(s.subrange(i, i + 7)[0] == s[i]);
            assert(s[i] == a[i]);
        }
    }
    assert forall|i: int| spec_contains_at(tail1, op, i) implies false by {
        assert(tail1.subrange(i, i + 7)[0] == tail1[i]);
        assert(tail1[i] == '<');
        if i < m.len() {
            assert(tail1[i] == m[i]);
        } else if i < m.len() + 8 {
            assert(tail1[i] == cl[i - m.len()]);
            assert(i == m.len());
            assert(tail1.subrange(i, i + 7)[1] == tail1[i + 1]);
            assert(tail1[i + 1] == cl[1]);
        } else {
            assert(tail1[i] == b[i - m.len() - 8]);
        }
    }
    assert(!spec_contains(tail1, op));
    let a2 = a + wo + m;
    let s2 = a2 + cl + b;
    assert forall|i: int| 0 <= i < a2.len() implies !spec_contains_at(s2, cl, i) by {
        if spec_contains_at(s2, cl, i) {
            assert(s2.subrange(i, i + 8)[0] == s2[i]);
            assert(s2.subrange(i, i + 8)[1] == s2[i + 1]);
            assert(s2[i] == '<' && s2[i + 1] == '/');
            assert(s2[i] == a2[i]);
            if i < a.len() {
                assert(a2[i] == a[i]);
            } else if i < a.len() + 37 {
                assert(a2[i] == wo[i - a.len()]);
                assert(i - a.len() == 0 || i - a.len() == 30);
                assert(s2[i + 1] == a2[i + 1]);
                assert(a2[i + 1] == wo[i - a.len() + 1]);
                assert(wo[1] == 'd' && wo[31] == 't');
            } else {
                assert(a2[i] == m[i - a.len() - 37]);
            }
        }
    }
    assert forall|i: int| spec_contains_at(b, cl, i) implies false by {
        assert(b.subrange(i, i + 8)[0] == b[i]);
    }
    assert(!spec_contains(b, cl));
    lemma_wrap_tables_single(a, m, b);
}

} // verus!
