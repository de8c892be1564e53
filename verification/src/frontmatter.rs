//! Front-matter extraction: an article file starts with a metadata block
//! between two `---` delimiter lines, holding `key: value` entries in a
//! small structured subset (plain and quoted scalars, `null`/`~`, inline
//! `[a, b]` lists and block lists of `- item` lines, `#` comment lines,
//! later duplicate keys winning). The extractor returns the parsed
//! metadata and the remaining body text, or nothing when the block is
//! missing or malformed: a missing required field, a `tags` entry that is
//! not a list, an `edited` entry that is not `true` or `false`, or a
//! missing `edited_date` on an article marked `edited`.

use vstd::prelude::*;
use crate::strutil;
use crate::strutil::{spec_join, spec_split, spec_starts_with, spec_trim};

verus! {

/// A value parsed from one front-matter entry.
pub enum SpecYamlValue {
    /// An empty or explicit `null` / `~` value.
    Null,
    /// A plain or quoted scalar.
    Scalar(Seq<char>),
    /// An inline `[a, b]` list, or a block list of `- item` lines.
    List(Seq<Seq<char>>),
}

/// The executable twin of `SpecYamlValue`.
pub enum YamlValue {
    Null,
    Scalar(Vec<char>),
    List(Vec<Vec<char>>),
}

pub open spec fn val_view(v: YamlValue) -> SpecYamlValue {
    match v {
        YamlValue::Null => SpecYamlValue::Null,
        YamlValue::Scalar(s) => SpecYamlValue::Scalar(s@),
        YamlValue::List(l) => SpecYamlValue::List(l.deep_view()),
    }
}

/// `s` with one pair of matching surrounding quotes removed, if any.
pub open spec fn spec_unquote(s: Seq<char>) -> Seq<char> {
    if s.len() >= 2 && ((s[0] == '"' && s.last() == '"') || (s[0] == '\'' && s.last()
        == '\'')) {
        s.subrange(1, s.len() - 1)
    } else {
        s
    }
}

fn unquote_chars(v: &Vec<char>) -> (r: Vec<char>)
    ensures
        r@ == spec_unquote(v@),
{
    if v.len() >= 2 && ((v[0] == '"' && v[v.len() - 1] == '"') || (v[0] == '\'' && v[v.len()
        - 1] == '\'')) {
        strutil::subvec(v, 1, v.len() - 1)
    } else {
        let mut r: Vec<char> = Vec::new();
        strutil::push_all(&mut r, v);
        proof {
            assert(r@ =~= v@);
        }
        r
    }
}

/// The first position of `c` in `s` at or after `i`.
pub open spec fn spec_find_char(s: Seq<char>, c: char, i: int) -> Option<int>
    decreases s.len() - i,
    when 0 <= i <= s.len()
{
    if i >= s.len() {
        None
    } else if s[i] == c {
        Some(i)
    } else {
        spec_find_char(s, c, i + 1)
    }
}

fn find_char(v: &Vec<char>, c: char) -> (r: Option<usize>)
    ensures
        r matches Some(k) ==> k < v@.len() && spec_find_char(v@, c, 0) == Some(k as int),
        r is None ==> spec_find_char(v@, c, 0) is None,
{
    let n = v.len();
    let mut i: usize = 0;
    while i < n
        invariant
            i <= n,
            n == v@.len(),
            spec_find_char(v@, c, 0) == spec_find_char(v@, c, i as int),
        decreases n - i,
    {
        if v[i] == c {
            return Some(i);
        }
        i += 1;
    }
    None
}

/// The items of an inline list, given the text between its brackets.
pub open spec fn spec_inline_items(inner: Seq<char>) -> Seq<Seq<char>> {
    if spec_trim(inner).len() == 0 {
        Seq::<Seq<char>>::empty()
    } else {
        spec_split(inner, ',').map_values(|x: Seq<char>| spec_unquote(spec_trim(x)))
    }
}

fn inline_items(inner: &Vec<char>) -> (r: Vec<Vec<char>>)
    ensures
        r.deep_view() == spec_inline_items(inner@),
{
    let t = strutil::trim_chars(inner);
    if t.len() == 0 {
        let r: Vec<Vec<char>> = Vec::new();
        proof {
            assert(r.deep_view() =~~= spec_inline_items(inner@));
        }
        return r;
    }
    let parts = strutil::split_chars(inner, ',');
    let mut items: Vec<Vec<char>> = Vec::new();
    let n = parts.len();
    let mut i: usize = 0;
    while i < n
        invariant
            i <= n,
            n == parts@.len(),
            parts.deep_view().len() == n,
            items.deep_view().len() == i,
            forall|k: int|
                0 <= k < i ==> items.deep_view()[k] == spec_unquote(
                    spec_trim(parts.deep_view()[k]),
                ),
        decreases n - i,
    {
        proof {
            assert(parts.deep_view()[i as int] == parts@[i as int]@);
        }
        let trimmed = strutil::trim_chars(&parts[i]);
        let item = unquote_chars(&trimmed);
        let ghost prev = items.deep_view();
        items.push(item);
        proof {
            assert(items.deep_view() =~~= prev.push(item@));
        }
        i += 1;
    }
    proof {
        assert(items.deep_view() =~~= spec_inline_items(inner@));
    }
    items
}

/// What one line of the metadata block means.
pub enum SpecLineKind {
    /// Blank or a comment: ignored.
    Skip,
    /// A `- item` line belonging to the preceding list entry.
    Item(Seq<char>),
    /// A `key: value` entry.
    Entry(Seq<char>, SpecYamlValue),
    /// None of the above: the block is malformed.
    Bad,
}

enum LineKind {
    Skip,
    Item(Vec<char>),
    Entry(Vec<char>, YamlValue),
    Bad,
}

spec fn line_kind_view(k: LineKind) -> SpecLineKind {
    match k {
        LineKind::Skip => SpecLineKind::Skip,
        LineKind::Item(x) => SpecLineKind::Item(x@),
        LineKind::Entry(key, v) => SpecLineKind::Entry(key@, val_view(v)),
        LineKind::Bad => SpecLineKind::Bad,
    }
}

/// How one line of the metadata block is read.
pub open spec fn spec_classify_line(line: Seq<char>) -> SpecLineKind {
    let t = spec_trim(line);
    if t.len() == 0 || t[0] == '#' {
        SpecLineKind::Skip
    } else if spec_starts_with(t, "- "@) {
        SpecLineKind::Item(spec_unquote(spec_trim(t.skip(2))))
    } else {
        match spec_find_char(t, ':', 0) {
            None => SpecLineKind::Bad,
            Some(k) => {
                let key = spec_trim(t.take(k));
                let val = spec_trim(t.skip(k + 1));
                if key.len() == 0 {
                    SpecLineKind::Bad
                } else if val.len() == 0 || val == "null"@ || val == "~"@ {
                    SpecLineKind::Entry(key, SpecYamlValue::Null)
                } else if val[0] == '[' {
                    if val.last() == ']' {
                        SpecLineKind::Entry(
                            key,
                            SpecYamlValue::List(spec_inline_items(val.subrange(1, val.len() - 1))),
                        )
                    } else {
                        SpecLineKind::Bad
                    }
                } else {
                    SpecLineKind::Entry(key, SpecYamlValue::Scalar(spec_unquote(val)))
                }
            },
        }
    }
}

fn classify_line(line: &Vec<char>) -> (r: LineKind)
    ensures
        line_kind_view(r) == spec_classify_line(line@),
{
    let t = strutil::trim_chars(line);
    if t.len() == 0 {
        return LineKind::Skip;
    }
    if t[0] == '#' {
        return LineKind::Skip;
    }
    let dash_space = strutil::str_to_chars("- ");
    proof {
        reveal_strlit("- ");
    }
    if strutil::starts_with_chars(&t, &dash_space) {
        let rest = strutil::subvec(&t, 2, t.len());
        proof {
            assert(rest@ =~= t@.skip(2));
        }
        let trimmed = strutil::trim_chars(&rest);
        return LineKind::Item(unquote_chars(&trimmed));
    }
    match find_char(&t, ':') {
        None => LineKind::Bad,
        Some(k) => {
            let key_raw = strutil::subvec(&t, 0, k);
            proof {
                assert(key_raw@ =~= t@.take(k as int));
            }
            let key = strutil::trim_chars(&key_raw);
            let val_raw = strutil::subvec(&t, k + 1, t.len());
            proof {
                assert(val_raw@ =~= t@.skip(k + 1));
            }
            let val = strutil::trim_chars(&val_raw);
            if key.len() == 0 {
                return LineKind::Bad;
            }
            let null_lit = strutil::str_to_chars("null");
            let tilde_lit = strutil::str_to_chars("~");
            if val.len() == 0 || strutil::chars_eq(&val, &null_lit) || strutil::chars_eq(
                &val,
                &tilde_lit,
            ) {
                return LineKind::Entry(key, YamlValue::Null);
            }
            if val[0] == '[' {
                if val[val.len() - 1] == ']' {
                    let inner = strutil::subvec(&val, 1, val.len() - 1);
                    return LineKind::Entry(key, YamlValue::List(inline_items(&inner)));
                }
                return LineKind::Bad;
            }
            LineKind::Entry(key, YamlValue::Scalar(unquote_chars(&val)))
        },
    }
}

/// One parsed entry: a key and its value.
pub type SpecEntries = Seq<(Seq<char>, SpecYamlValue)>;

pub open spec fn entries_view(es: Seq<(Vec<char>, YamlValue)>) -> SpecEntries {
    es.map_values(|p: (Vec<char>, YamlValue)| (p.0@, val_view(p.1)))
}

/// The parsed entries after reading one more line, or nothing when the
/// line is malformed: a `- item` line may only follow a list (or still
/// empty) entry, and every other non-blank line must be `key: value`.
pub open spec fn spec_apply_line(acc: SpecEntries, line: Seq<char>) -> Option<SpecEntries> {
    match spec_classify_line(line) {
        SpecLineKind::Skip => Some(acc),
        SpecLineKind::Bad => None,
        SpecLineKind::Entry(k, v) => Some(acc.push((k, v))),
        SpecLineKind::Item(x) => {
            if acc.len() == 0 {
                None
            } else {
                let last = acc.last();
                match last.1 {
                    SpecYamlValue::Null => Some(
                        acc.update(acc.len() - 1, (last.0, SpecYamlValue::List(seq![x]))),
                    ),
                    SpecYamlValue::List(xs) => Some(
                        acc.update(acc.len() - 1, (last.0, SpecYamlValue::List(xs.push(x)))),
                    ),
                    SpecYamlValue::Scalar(s) => None,
                }
            }
        },
    }
}

/// The entries parsed from the block lines starting at `i`, given the
/// entries read so far.
pub open spec fn spec_parse_entries(block: Seq<Seq<char>>, i: int, acc: SpecEntries) -> Option<
    SpecEntries,
>
    decreases block.len() - i,
    when 0 <= i <= block.len()
{
    if i >= block.len() {
        Some(acc)
    } else {
        match spec_apply_line(acc, block[i]) {
            None => None,
            Some(acc2) => spec_parse_entries(block, i + 1, acc2),
        }
    }
}

/// Parses the metadata block held in `lines[start..end]`.
fn parse_entries(lines: &Vec<Vec<char>>, start: usize, end: usize) -> (r: Option<
    Vec<(Vec<char>, YamlValue)>,
>)
    requires
        start <= end <= lines@.len(),
    ensures
        r matches Some(es) ==> spec_parse_entries(
            lines.deep_view().subrange(start as int, end as int),
            0,
            Seq::empty(),
        ) == Some(entries_view(es@)),
        r is None ==> spec_parse_entries(
            lines.deep_view().subrange(start as int, end as int),
            0,
            Seq::empty(),
        ) is None,
{
    let ghost block = lines.deep_view().subrange(start as int, end as int);
    let mut acc: Vec<(Vec<char>, YamlValue)> = Vec::new();
    let mut i: usize = start;
    proof {
        assert(entries_view(acc@) =~~= Seq::<(Seq<char>, SpecYamlValue)>::empty());
    }
    while i < end
        invariant
            start <= i <= end <= lines@.len(),
            block == lines.deep_view().subrange(start as int, end as int),
            spec_parse_entries(block, 0, Seq::empty()) == spec_parse_entries(
                block,
                i - start,
                entries_view(acc@),
            ),
        decreases end - i,
    {
        let ghost old_acc = entries_view(acc@);
        proof {
            assert(block[i - start] == lines.deep_view()[i as int]);
            assert(lines.deep_view()[i as int] == lines@[i as int]@);
        }
        let kind = classify_line(&lines[i]);
        match kind {
            LineKind::Skip => {
            },
            LineKind::Bad => {
                return None;
            },
            LineKind::Entry(k, v) => {
                let ghost kk = k@;
                let ghost vv = val_view(v);
                acc.push((k, v));
                proof {
                    assert(entries_view(acc@) =~~= old_acc.push((kk, vv)));
                }
            },
            LineKind::Item(x) => {
                if acc.len() == 0 {
                    return None;
                }
                let last = acc.pop().unwrap();
                let ghost popped = entries_view(acc@);
                proof {
                    assert(popped =~~= old_acc.drop_last());
                }
                match last.1 {
                    YamlValue::Null => {
                        let mut xs: Vec<Vec<char>> = Vec::new();
                        xs.push(x);
                        proof {
                            assert(xs.deep_view() =~~= seq![x@]);
                        }
                        acc.push((last.0, YamlValue::List(xs)));
                        proof {
                            assert(entries_view(acc@) =~~= old_acc.update(
                                old_acc.len() - 1,
                                (old_acc.last().0, SpecYamlValue::List(seq![x@])),
                            ));
                        }
                    },
                    YamlValue::List(mut xs) => {
                        let ghost xsv = xs.deep_view();
                        xs.push(x);
                        proof {
                            assert(xs.deep_view() =~~= xsv.push(x@));
                        }
                        acc.push((last.0, YamlValue::List(xs)));
                        proof {
                            assert(entries_view(acc@) =~~= old_acc.update(
                                old_acc.len() - 1,
                                (old_acc.last().0, SpecYamlValue::List(xsv.push(x@))),
                            ));
                        }
                    },
                    YamlValue::Scalar(s) => {
                        return None;
                    },
                }
            },
        }
        i += 1;
    }
    Some(acc)
}

/// The value of `key`, later entries taking precedence.
pub open spec fn spec_lookup(entries: SpecEntries, key: Seq<char>) -> Option<SpecYamlValue>
    decreases entries.len(),
{
    if entries.len() == 0 {
        None
    } else if entries.last().0 == key {
        Some(entries.last().1)
    } else {
        spec_lookup(entries.drop_last(), key)
    }
}

/// The value of `key` when it is a scalar.
pub open spec fn spec_scalar(entries: SpecEntries, key: Seq<char>) -> Option<Seq<char>> {
    match spec_lookup(entries, key) {
        Some(SpecYamlValue::Scalar(s)) => Some(s),
        _ => None,
    }
}

/// The index of the winning entry for `key`, if any.
fn lookup_idx(entries: &Vec<(Vec<char>, YamlValue)>, key: &Vec<char>) -> (r: Option<usize>)
    ensures
        r matches Some(i) ==> i < entries@.len() && spec_lookup(entries_view(entries@), key@)
            == Some(val_view(entries@[i as int].1)),
        r is None ==> spec_lookup(entries_view(entries@), key@) is None,
{
    let ghost full = entries_view(entries@);
    let mut i: usize = entries.len();
    proof {
        assert(full.take(entries@.len() as int) =~~= full);
    }
    while i > 0
        invariant
            i <= entries@.len(),
            full == entries_view(entries@),
            spec_lookup(full, key@) == spec_lookup(full.take(i as int), key@),
        decreases i,
    {
        i -= 1;
        proof {
            assert(full.take(i + 1).last() == full[i as int]);
            assert(full.take(i + 1).drop_last() =~~= full.take(i as int));
        }
        if strutil::chars_eq(&entries[i].0, key) {
            return Some(i);
        }
    }
    proof {
        assert(full.take(0) =~~= Seq::<(Seq<char>, SpecYamlValue)>::empty());
    }
    None
}

/// The metadata of one article, as mathematical values.
pub struct FrontMatterView {
    pub title: Seq<char>,
    pub tagline: Seq<char>,
    pub tags: Seq<Seq<char>>,
    pub date: Seq<char>,
    pub author: Seq<char>,
    pub edited: bool,
    pub lang: Seq<char>,
    pub edited_date: Option<Seq<char>>,
}

impl FrontMatterView {
    /// An edited article must say when it was edited.
    pub open spec fn wf(self) -> bool {
        self.edited ==> self.edited_date is Some
    }
}

/// The metadata of one article. All fields except `edited_date` are
/// required; `edited_date` must be present whenever `edited` is set.
pub struct FrontMatter {
    pub title: String,
    pub tagline: String,
    pub tags: Vec<String>,
    pub date: String,
    pub author: String,
    pub edited: bool,
    pub lang: String,
    pub edited_date: Option<String>,
}

impl View for FrontMatter {
    type V = FrontMatterView;

    open spec fn view(&self) -> FrontMatterView {
        FrontMatterView {
            title: self.title@,
            tagline: self.tagline@,
            tags: self.tags.deep_view(),
            date: self.date@,
            author: self.author@,
            edited: self.edited,
            lang: self.lang@,
            edited_date: self.edited_date.deep_view(),
        }
    }
}

/// The front matter described by the parsed entries, or nothing when a
/// required field is missing or has the wrong shape.
pub open spec fn spec_fields_of(entries: SpecEntries) -> Option<FrontMatterView> {
    let title = spec_scalar(entries, "title"@);
    let tagline = spec_scalar(entries, "tagline"@);
    let date = spec_scalar(entries, "date"@);
    let author = spec_scalar(entries, "author"@);
    let lang = spec_scalar(entries, "lang"@);
    let tags = spec_lookup(entries, "tags"@);
    let edited = spec_scalar(entries, "edited"@);
    let edited_date = spec_lookup(entries, "edited_date"@);
    if title is Some && tagline is Some && date is Some && author is Some && lang is Some
        && (tags matches Some(SpecYamlValue::List(_))) && (edited matches Some(e) && (e == "true"@
        || e == "false"@)) && (edited_date is None || (edited_date matches Some(
        SpecYamlValue::Null,
    )) || (edited_date matches Some(SpecYamlValue::Scalar(_)))) {
        let fm = FrontMatterView {
            title: title->Some_0,
            tagline: tagline->Some_0,
            tags: tags->Some_0->List_0,
            date: date->Some_0,
            author: author->Some_0,
            edited: edited->Some_0 == "true"@,
            lang: lang->Some_0,
            edited_date: match edited_date {
                Some(SpecYamlValue::Scalar(s)) => Some(s),
                _ => None,
            },
        };
        if fm.wf() {
            Some(fm)
        } else {
            None
        }
    } else {
        None
    }
}

/// Reads one scalar field, or nothing when it is absent or not a scalar.
fn scalar_field(entries: &Vec<(Vec<char>, YamlValue)>, key: &str) -> (r: Option<String>)
    ensures
        r matches Some(s) ==> spec_scalar(entries_view(entries@), key@) == Some(s@),
        r is None ==> spec_scalar(entries_view(entries@), key@) is None,
{
    let keyv = strutil::str_to_chars(key);
    match lookup_idx(entries, &keyv) {
        None => None,
        Some(i) => {
            match &entries[i].1 {
                YamlValue::Scalar(s) => Some(strutil::chars_to_string(s)),
                _ => None,
            }
        },
    }
}

/// Builds the front matter from the parsed entries, or nothing when a
/// required field is missing or has the wrong shape.
fn fields_of(entries: &Vec<(Vec<char>, YamlValue)>) -> (r: Option<FrontMatter>)
    ensures
        r matches Some(fm) ==> spec_fields_of(entries_view(entries@)) == Some(fm@),
        r is None ==> spec_fields_of(entries_view(entries@)) is None,
{
    let ghost ev = entries_view(entries@);
    let title = match scalar_field(entries, "title") {
        Some(s) => s,
        None => {
            return None;
        },
    };
    let tagline = match scalar_field(entries, "tagline") {
        Some(s) => s,
        None => {
            return None;
        },
    };
    let date = match scalar_field(entries, "date") {
        Some(s) => s,
        None => {
            return None;
        },
    };
    let author = match scalar_field(entries, "author") {
        Some(s) => s,
        None => {
            return None;
        },
    };
    let lang = match scalar_field(entries, "lang") {
        Some(s) => s,
        None => {
            return None;
        },
    };
    let tags_key = strutil::str_to_chars("tags");
    let tags: Vec<String> = match lookup_idx(entries, &tags_key) {
        None => {
            return None;
        },
        Some(i) => {
            match &entries[i].1 {
                YamlValue::List(xs) => {
                    let mut out: Vec<String> = Vec::new();
                    let n = xs.len();
                    let mut k: usize = 0;
                    while k < n
                        invariant
                            k <= n,
                            n == xs@.len(),
                            out.deep_view().len() == k,
                            forall|m: int|
                                0 <= m < k ==> out.deep_view()[m] == xs.deep_view()[m],
                        decreases n - k,
                    {
                        let ghost prev = out.deep_view();
                        out.push(strutil::chars_to_string(&xs[k]));
                        proof {
                            assert(out.deep_view() =~~= prev.push(xs@[k as int]@));
                        }
                        k += 1;
                    }
                    proof {
                        assert(out.deep_view() =~~= xs.deep_view());
                    }
                    out
                },
                _ => {
                    return None;
                },
            }
        },
    };
    let edited_str = match scalar_field(entries, "edited") {
        Some(s) => s,
        None => {
            return None;
        },
    };
    let edited: bool = {
        let ev_chars = strutil::str_to_chars(edited_str.as_str());
        let true_lit = strutil::str_to_chars("true");
        let false_lit = strutil::str_to_chars("false");
        if strutil::chars_eq(&ev_chars, &true_lit) {
            true
        } else if strutil::chars_eq(&ev_chars, &false_lit) {
            false
        } else {
            return None;
        }
    };
    let ed_key = strutil::str_to_chars("edited_date");
    let edited_date: Option<String> = match lookup_idx(entries, &ed_key) {
        None => None,
        Some(i) => {
            match &entries[i].1 {
                YamlValue::Null => None,
                YamlValue::Scalar(s) => Some(strutil::chars_to_string(s)),
                YamlValue::List(_) => {
                    return None;
                },
            }
        },
    };
    if edited && edited_date.is_none() {
        return None;
    }
    let fm = FrontMatter { title, tagline, tags, date, author, edited, lang, edited_date };
    proof {
        assert(spec_fields_of(ev) == Some(fm@));
    }
    Some(fm)
}

/// Whether a line is the `---` front-matter delimiter.
pub open spec fn spec_is_delim(l: Seq<char>) -> bool {
    spec_trim(l) == "---"@
}

fn is_delim_line(l: &Vec<char>) -> (r: bool)
    ensures
        r == spec_is_delim(l@),
{
    let t = strutil::trim_chars(l);
    let dashes = strutil::str_to_chars("---");
    strutil::chars_eq(&t, &dashes)
}

/// The first delimiter line at or after `i`.
pub open spec fn spec_find_delim(lines: Seq<Seq<char>>, i: int) -> Option<int>
    decreases lines.len() - i,
    when 0 <= i <= lines.len()
{
    if i >= lines.len() {
        None
    } else if spec_is_delim(lines[i]) {
        Some(i)
    } else {
        spec_find_delim(lines, i + 1)
    }
}

fn find_delim(lines: &Vec<Vec<char>>, start: usize) -> (r: Option<usize>)
    requires
        start <= lines@.len(),
    ensures
        r matches Some(j) ==> start <= j < lines@.len() && spec_find_delim(
            lines.deep_view(),
            start as int,
        ) == Some(j as int),
        r is None ==> spec_find_delim(lines.deep_view(), start as int) is None,
{
    let n = lines.len();
    let mut i: usize = start;
    while i < n
        invariant
            start <= i <= n,
            n == lines@.len(),
            spec_find_delim(lines.deep_view(), start as int) == spec_find_delim(
                lines.deep_view(),
                i as int,
            ),
        decreases n - i,
    {
        proof {
            assert(lines.deep_view()[i as int] == lines@[i as int]@);
        }
        if is_delim_line(&lines[i]) {
            return Some(i);
        }
        i += 1;
    }
    None
}

/// The front matter and body of an article's text: the text must open
/// with a `---` line, the metadata block runs to the next `---` line, and
/// the body is everything after it.
pub open spec fn spec_extract(text: Seq<char>) -> Option<(FrontMatterView, Seq<char>)> {
    let lines = spec_split(text, '\n');
    if lines.len() > 0 && spec_is_delim(lines[0]) {
        match spec_find_delim(lines, 1) {
            None => None,
            Some(j) => {
                match spec_parse_entries(lines.subrange(1, j), 0, Seq::empty()) {
                    None => None,
                    Some(entries) => match spec_fields_of(entries) {
                        None => None,
                        Some(fm) => Some((fm, spec_join(lines.skip(j + 1), seq!['\n']))),
                    },
                }
            },
        }
    } else {
        None
    }
}

/// Splits an article's text into its front matter and its body, or
/// nothing when the metadata block is missing or malformed.
pub fn parse_front_matter(text: &str) -> (r: Option<(FrontMatter, String)>)
    ensures
        (r is Some) == (spec_extract(text@) is Some),
        r matches Some(p) ==> spec_extract(text@) == Some((p.0@, p.1@)),
{
    let chars = strutil::str_to_chars(text);
    let lines = strutil::split_chars(&chars, '\n');
    proof {
        assert(lines.deep_view() == spec_split(text@, '\n'));
        assert(lines.deep_view()[0] == lines@[0]@);
    }
    if !is_delim_line(&lines[0]) {
        return None;
    }
    let j = match find_delim(&lines, 1) {
        None => {
            return None;
        },
        Some(j) => j,
    };
    let entries = match parse_entries(&lines, 1, j) {
        None => {
            return None;
        },
        Some(es) => es,
    };
    proof {
        assert(lines.deep_view().subrange(1, j as int) =~~= spec_split(text@, '\n').subrange(
            1,
            j as int,
        ));
    }
    let fm = match fields_of(&entries) {
        None => {
            return None;
        },
        Some(fm) => fm,
    };
    let newline = strutil::str_to_chars("\n");
    let n = lines.len();
    proof {
        assert(j < n);
    }
    let body_chars = strutil::join_from(&lines, j + 1, &newline);
    proof {
        reveal_strlit("\n");
        assert(newline@ =~= seq!['\n']);
    }
    let body = strutil::chars_to_string(&body_chars);
    Some((fm, body))
}

/// The date an article shows: the raw date, with an `(Edited ...)`
/// suffix when the article was edited.
pub open spec fn spec_display_date(fm: FrontMatterView) -> Seq<char> {
    if fm.edited {
        fm.date + " (Edited "@ + fm.edited_date->Some_0 + ")"@
    } else {
        fm.date
    }
}

impl FrontMatter {
    /// The date this article shows, per `spec_display_date`.
    pub fn display_date(&self) -> (r: String)
        requires
            self@.wf(),
        ensures
            r@ == spec_display_date(self@),
    {
        if self.edited {
            let mut r = self.date.clone();
            r.append(" (Edited ");
            match &self.edited_date {
                Some(d) => r.append(d.as_str()),
                None => {
                },
            }
            r.append(")");
            r
        } else {
            self.date.clone()
        }
    }
}

/// An unedited article shows exactly its raw date.
pub proof fn lemma_display_date_unedited(fm: FrontMatterView)
    requires
        !fm.edited,
    ensures
        spec_display_date(fm) == fm.date,
{
}

/// An edited article shows its raw date followed by
/// ` (Edited {edited_date})`.
pub proof fn lemma_display_date_edited(fm: FrontMatterView)
    requires
        fm.edited,
        fm.wf(),
    ensures
        spec_display_date(fm) == fm.date + " (Edited "@ + fm.edited_date->Some_0 + ")"@,
{
}

/// A front-matter block marked `edited` without an `edited_date` never
/// parses: extraction only succeeds on well-formed metadata.
pub proof fn lemma_extract_wf(text: Seq<char>)
    ensures
        spec_extract(text) matches Some(p) ==> p.0.wf(),
{
}

} // verus!
