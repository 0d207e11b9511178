//! Reading archive pages: the search results listed on a result page and the
//! download link on a download page. The HTML parsing and CSS selection are
//! the `scraper` crate's; what is read from the selected elements is decided
//! here.
use vstd::prelude::*;

use crate::opds::feeds::opt_string_view;
use crate::text::{
    contains, contains_sub, is_ws, is_whitespace_char, occurs_at, occurs_at_exec, slice_chars,
    str_chars, string_of, strip_prefix, strip_prefix_exec, trim, trim_exec,
};

verus! {

// ---------------------------------------------------------------------------
// Data
// ---------------------------------------------------------------------------
/// A search result as it appears on the archive's result page, before its
/// download statistics are fetched.
#[derive(Debug, Clone)]
pub struct RawEntry {
    pub md5: String,
    pub title: String,
    pub author: String,
}

impl RawEntry {
    /// A copy of this entry.
    pub fn copy(&self) -> (r: Self)
        ensures
            r == *self,
    {
        RawEntry { md5: self.md5.clone(), title: self.title.clone(), author: self.author.clone() }
    }
}

/// A result title link: its `href` attribute and its text.
#[derive(Debug, Clone)]
pub struct PageLink {
    pub href: Option<String>,
    pub text: String,
}

/// An author link: its text, and whether it holds the user-edit icon.
#[derive(Debug, Clone)]
pub struct AuthorLink {
    pub text: String,
    pub has_user_icon: bool,
}

/// One result row: its first title link and its author links.
#[derive(Debug, Clone)]
pub struct ResultRow {
    pub title: Option<PageLink>,
    pub authors: Vec<AuthorLink>,
}

/// A result row container.
pub const ROW_SELECTOR: &'static str = "div.border-b";

/// A result title link.
pub const TITLE_SELECTOR: &'static str = "a.js-vim-focus[href^='/md5/']";

/// An author search link.
pub const AUTHOR_SELECTOR: &'static str = "a[href*='search?q=']";

/// The user-edit icon that marks the author among a row's search links.
pub const USER_ICON_SELECTOR: &'static str = "span[class*='mdi--user-edit']";

/// The span that holds the download link on a download page.
pub const BREAK_ALL_SPAN_SELECTOR: &'static str = "span.break-all";

/// Any link.
pub const LINK_SELECTOR: &'static str = "a[href]";

/// Any element with unbroken text.
pub const BREAK_ALL_SELECTOR: &'static str = ".break-all";

/// The text the archive shows when a search fails.
pub const SEARCH_ERROR_TEXT: &'static str = "Error during search.";

/// A link, as the logic reads it.
pub open spec fn link_view(l: PageLink) -> (Option<Seq<char>>, Seq<char>) {
    (opt_string_view(l.href), l.text@)
}

/// An author link, as the logic reads it.
pub open spec fn author_view(a: AuthorLink) -> (Seq<char>, bool) {
    (a.text@, a.has_user_icon)
}

/// Author links, as the logic reads them.
pub open spec fn author_views(v: Seq<AuthorLink>) -> Seq<(Seq<char>, bool)> {
    v.map_values(|a: AuthorLink| author_view(a))
}

/// Links, as the logic reads them.
pub open spec fn link_views(v: Seq<PageLink>) -> Seq<(Option<Seq<char>>, Seq<char>)> {
    v.map_values(|l: PageLink| link_view(l))
}

/// A row, as the logic reads it.
pub open spec fn row_view(r: ResultRow) -> (
    Option<(Option<Seq<char>>, Seq<char>)>,
    Seq<(Seq<char>, bool)>,
) {
    (
        match r.title {
            Some(l) => Some(link_view(l)),
            None => None,
        },
        author_views(r.authors@),
    )
}

/// Rows, as the logic reads them.
pub open spec fn row_views(v: Seq<ResultRow>) -> Seq<
    (Option<(Option<Seq<char>>, Seq<char>)>, Seq<(Seq<char>, bool)>),
> {
    v.map_values(|r: ResultRow| row_view(r))
}

/// Entries, as text triples.
pub open spec fn entry_views(v: Seq<RawEntry>) -> Seq<(Seq<char>, Seq<char>, Seq<char>)> {
    v.map_values(|e: RawEntry| (e.md5@, e.title@, e.author@))
}

/// Strings, by their text.
pub open spec fn texts(v: Seq<String>) -> Seq<Seq<char>> {
    v.map_values(|s: String| s@)
}

// ---------------------------------------------------------------------------
// Parsing (the `scraper` crate)
// ---------------------------------------------------------------------------
/// `scraper::Html`, opaque to the proofs.
#[verifier::external_type_specification]
#[verifier::external_body]
pub struct ExHtml(scraper::Html);

/// An HTML document parsed by `scraper`, with the text it was parsed from.
pub struct ParsedPage {
    doc: scraper::Html,
    source: Ghost<Seq<char>>,
}

impl View for ParsedPage {
    type V = Seq<char>;

    /// The text the page was parsed from.
    closed spec fn view(&self) -> Seq<char> {
        self.source@
    }
}

/// For each element matching `div.border-b` in document order: the first
/// descendant matching the title selector (its `href` and text) and every
/// descendant matching the author selector (its text, and whether one of its
/// descendants matches the user-icon selector), as `scraper` parses `html`.
pub uninterp spec fn page_search_rows(html: Seq<char>) -> Seq<
    (Option<(Option<Seq<char>>, Seq<char>)>, Seq<(Seq<char>, bool)>),
>;

/// Every element of the parsed `html` matching the title selector, in
/// document order: its `href` and its text.
pub uninterp spec fn page_title_links(html: Seq<char>) -> Seq<(Option<Seq<char>>, Seq<char>)>;

/// Every element of the parsed `html` matching the author selector, in
/// document order: its text, and whether it holds the user icon.
pub uninterp spec fn page_author_links(html: Seq<char>) -> Seq<(Seq<char>, bool)>;

/// The text of every element of the parsed `html` matching `span.break-all`.
pub uninterp spec fn page_break_all_spans(html: Seq<char>) -> Seq<Seq<char>>;

/// The `href` of every element of the parsed `html` matching `a[href]`.
pub uninterp spec fn page_link_hrefs(html: Seq<char>) -> Seq<Seq<char>>;

/// The text of every element of the parsed `html` matching `.break-all`.
pub uninterp spec fn page_break_all_texts(html: Seq<char>) -> Seq<Seq<char>>;

/// `scraper::Html::parse_document`: parses `html` as a whole document (the
/// parser accepts any text).
#[verifier::external_body]
fn parse_page(html: &str) -> (r: ParsedPage)
    ensures
        r@ == html@,
{
    ParsedPage { doc: scraper::Html::parse_document(html), source: Ghost(html@) }
}

/// `Html::select` with the row selector, then `ElementRef::select` with the
/// title, author and user-icon selectors inside each row; the texts are
/// `ElementRef::text` concatenated. The result is named `page_search_rows`.
/// The selectors are constants that parse.
#[verifier::external_body]
fn search_rows(page: &ParsedPage) -> (r: Vec<ResultRow>)
    ensures
        row_views(r@) == page_search_rows(page@),
{
    let sel = |s: &str| scraper::Selector::parse(s).expect("constant selector");
    let (row, title, author) = (sel(ROW_SELECTOR), sel(TITLE_SELECTOR), sel(AUTHOR_SELECTOR));
    let icon = sel(USER_ICON_SELECTOR);
    page.doc.select(&row).map(|r| ResultRow {
        title: r.select(&title).next().map(|e| PageLink {
            href: e.attr("href").map(str::to_owned),
            text: e.text().collect(),
        }),
        authors: r.select(&author).map(|e| AuthorLink {
            text: e.text().collect(),
            has_user_icon: e.select(&icon).next().is_some(),
        }).collect(),
    }).collect()
}

/// `Html::select` with the title selector over the whole document; the
/// result is named `page_title_links`.
#[verifier::external_body]
fn title_links(page: &ParsedPage) -> (r: Vec<PageLink>)
    ensures
        link_views(r@) == page_title_links(page@),
{
    let title = scraper::Selector::parse(TITLE_SELECTOR).expect("constant selector");
    page.doc.select(&title).map(|e| PageLink {
        href: e.attr("href").map(str::to_owned),
        text: e.text().collect(),
    }).collect()
}

/// `Html::select` with the author selector over the whole document; the
/// result is named `page_author_links`.
#[verifier::external_body]
fn author_links(page: &ParsedPage) -> (r: Vec<AuthorLink>)
    ensures
        author_views(r@) == page_author_links(page@),
{
    let sel = |s: &str| scraper::Selector::parse(s).expect("constant selector");
    let (author, icon) = (sel(AUTHOR_SELECTOR), sel(USER_ICON_SELECTOR));
    page.doc.select(&author).map(|e| AuthorLink {
        text: e.text().collect(),
        has_user_icon: e.select(&icon).next().is_some(),
    }).collect()
}

/// `Html::select` with `span.break-all`: each element's text; named
/// `page_break_all_spans`.
#[verifier::external_body]
fn break_all_spans(page: &ParsedPage) -> (r: Vec<String>)
    ensures
        texts(r@) == page_break_all_spans(page@),
{
    let sel = scraper::Selector::parse(BREAK_ALL_SPAN_SELECTOR).expect("constant selector");
    page.doc.select(&sel).map(|e| e.text().collect()).collect()
}

/// `Html::select` with `a[href]`: each element's `href`; named
/// `page_link_hrefs`.
#[verifier::external_body]
fn link_hrefs(page: &ParsedPage) -> (r: Vec<String>)
    ensures
        texts(r@) == page_link_hrefs(page@),
{
    let sel = scraper::Selector::parse(LINK_SELECTOR).expect("constant selector");
    page.doc.select(&sel).filter_map(|e| e.attr("href").map(str::to_owned)).collect()
}

/// `Html::select` with `.break-all`: each element's text; named
/// `page_break_all_texts`.
#[verifier::external_body]
fn break_all_texts(page: &ParsedPage) -> (r: Vec<String>)
    ensures
        texts(r@) == page_break_all_texts(page@),
{
    let sel = scraper::Selector::parse(BREAK_ALL_SELECTOR).expect("constant selector");
    page.doc.select(&sel).map(|e| e.text().collect()).collect()
}


// ---------------------------------------------------------------------------
// Search results
// ---------------------------------------------------------------------------
/// The entry a title link gives, with the given author: its `href` must be
/// `/md5/` followed by a hash that is not blank, and its text must not be
/// blank; both are trimmed.
pub open spec fn entry_from_link(link: (Option<Seq<char>>, Seq<char>), author: Seq<char>) -> Option<
    (Seq<char>, Seq<char>, Seq<char>),
> {
    match link.0 {
        Some(href) => match strip_prefix(href, "/md5/"@) {
            Some(rest) => if trim(rest).len() > 0 && trim(link.1).len() > 0 {
                Some((trim(rest), trim(link.1), author))
            } else {
                None
            },
            None => None,
        },
        None => None,
    }
}

/// The text of the first author link that holds the user icon.
pub open spec fn first_icon_author(authors: Seq<(Seq<char>, bool)>) -> Option<Seq<char>>
    decreases authors.len(),
{
    if authors.len() == 0 {
        None
    } else if authors[0].1 {
        Some(authors[0].0)
    } else {
        first_icon_author(authors.drop_first())
    }
}

/// A row's author: the first author link with the user icon, else the first
/// author link, trimmed; empty where the row has none.
pub open spec fn row_author(authors: Seq<(Seq<char>, bool)>) -> Seq<char> {
    match first_icon_author(authors) {
        Some(t) => trim(t),
        None => if authors.len() > 0 {
            trim(authors[0].0)
        } else {
            Seq::empty()
        },
    }
}

/// The entries of the rows that have a usable title link, in order.
pub open spec fn row_entries(
    rows: Seq<(Option<(Option<Seq<char>>, Seq<char>)>, Seq<(Seq<char>, bool)>)>,
) -> Seq<(Seq<char>, Seq<char>, Seq<char>)>
    decreases rows.len(),
{
    if rows.len() == 0 {
        Seq::empty()
    } else {
        let prev = row_entries(rows.drop_last());
        match rows.last().0 {
            Some(l) => match entry_from_link(l, row_author(rows.last().1)) {
                Some(e) => prev.push(e),
                None => prev,
            },
            None => prev,
        }
    }
}

/// The author links that hold the user icon.
pub open spec fn icon_authors(authors: Seq<(Seq<char>, bool)>) -> Seq<(Seq<char>, bool)>
    decreases authors.len(),
{
    if authors.len() == 0 {
        Seq::empty()
    } else if authors.last().1 {
        icon_authors(authors.drop_last()).push(authors.last())
    } else {
        icon_authors(authors.drop_last())
    }
}

/// The author paired with the `i`-th title link of a page: the `i`-th
/// author link with the user icon, else the `i`-th author link, trimmed;
/// empty where there is neither.
pub open spec fn paired_author(
    preferred: Seq<(Seq<char>, bool)>,
    all: Seq<(Seq<char>, bool)>,
    i: int,
) -> Seq<char> {
    if i < preferred.len() {
        trim(preferred[i].0)
    } else if i < all.len() {
        trim(all[i].0)
    } else {
        Seq::empty()
    }
}

/// The entries of the first `n` title links of a page, each with its paired
/// author.
pub open spec fn link_entries(
    titles: Seq<(Option<Seq<char>>, Seq<char>)>,
    authors: Seq<(Seq<char>, bool)>,
    n: nat,
) -> Seq<(Seq<char>, Seq<char>, Seq<char>)>
    decreases n,
{
    if n == 0 {
        Seq::empty()
    } else {
        let prev = link_entries(titles, authors, (n - 1) as nat);
        match entry_from_link(
            titles[n - 1],
            paired_author(icon_authors(authors), authors, n - 1),
        ) {
            Some(e) => prev.push(e),
            None => prev,
        }
    }
}

/// The entries of a result page: those of its rows, or, where no row gives
/// one, those of its title links paired with its author links by position.
pub open spec fn search_entries(
    rows: Seq<(Option<(Option<Seq<char>>, Seq<char>)>, Seq<(Seq<char>, bool)>)>,
    titles: Seq<(Option<Seq<char>>, Seq<char>)>,
    authors: Seq<(Seq<char>, bool)>,
) -> Seq<(Seq<char>, Seq<char>, Seq<char>)> {
    if row_entries(rows).len() > 0 {
        row_entries(rows)
    } else {
        link_entries(titles, authors, titles.len())
    }
}

fn entry_for_link(link: &PageLink, author: &Vec<char>) -> (r: Option<RawEntry>)
    ensures
        match r {
            Some(e) => entry_from_link(link_view(*link), author@) == Some(
                (e.md5@, e.title@, e.author@),
            ),
            None => entry_from_link(link_view(*link), author@) is None,
        },
{
    let href = match &link.href {
        Some(h) => str_chars(h.as_str()),
        None => return None,
    };
    let rest = match strip_prefix_exec(&href, &str_chars("/md5/")) {
        Some(r) => r,
        None => return None,
    };
    let md5 = trim_exec(&rest);
    if md5.len() == 0 {
        return None;
    }
    let title = trim_exec(&str_chars(link.text.as_str()));
    if title.len() == 0 {
        return None;
    }
    Some(RawEntry { md5: string_of(&md5), title: string_of(&title), author: string_of(author) })
}

fn author_of_row(authors: &Vec<AuthorLink>) -> (r: Vec<char>)
    ensures
        r@ == row_author(author_views(authors@)),
{
    let ghost av = author_views(authors@);
    let mut i: usize = 0;
    assert(av.skip(0) =~= av);
    while i < authors.len()
        invariant
            i <= authors.len(),
            av == author_views(authors@),
            first_icon_author(av) == first_icon_author(av.skip(i as int)),
        decreases authors.len() - i,
    {
        proof {
            assert(av.skip(i as int).drop_first() =~= av.skip(i + 1));
            assert(av.skip(i as int)[0] == av[i as int]);
        }
        if authors[i].has_user_icon {
            return trim_exec(&str_chars(authors[i].text.as_str()));
        }
        i = i + 1;
    }
    if authors.len() > 0 {
        trim_exec(&str_chars(authors[0].text.as_str()))
    } else {
        Vec::new()
    }
}

/// The entries of the result rows that have a title link to a book hash and
/// a title: hash and title trimmed, and the row's author.
pub fn entries_from_rows(rows: &Vec<ResultRow>) -> (r: Vec<RawEntry>)
    ensures
        entry_views(r@) == row_entries(row_views(rows@)),
{
    let ghost rv = row_views(rows@);
    let mut out: Vec<RawEntry> = Vec::new();
    let mut k: usize = 0;
    while k < rows.len()
        invariant
            k <= rows.len(),
            rv == row_views(rows@),
            entry_views(out@) == row_entries(rv.take(k as int)),
        decreases rows.len() - k,
    {
        proof {
            assert(rv.take(k + 1).drop_last() =~= rv.take(k as int));
        }
        let row = &rows[k];
        match &row.title {
            Some(link) => {
                let author = author_of_row(&row.authors);
                match entry_for_link(link, &author) {
                    Some(e) => {
                        out.push(e);
                        assert(entry_views(out@) =~= row_entries(rv.take(k as int)).push(
                            (e.md5@, e.title@, e.author@),
                        ));
                    },
                    None => {},
                }
            },
            None => {},
        }
        k = k + 1;
    }
    assert(rv.take(rows.len() as int) =~= rv);
    out
}

/// The entries of a page's title links, in order, each paired with the
/// author link at the same position among those holding the user icon, or
/// else among all author links.
pub fn entries_from_links(titles: &Vec<PageLink>, authors: &Vec<AuthorLink>) -> (r: Vec<RawEntry>)
    ensures
        entry_views(r@) == link_entries(
            link_views(titles@),
            author_views(authors@),
            titles@.len(),
        ),
{
    let ghost av = author_views(authors@);
    let ghost tv = link_views(titles@);
    let mut preferred: Vec<usize> = Vec::new();
    let mut j: usize = 0;
    while j < authors.len()
        invariant
            j <= authors.len(),
            av == author_views(authors@),
            preferred@.len() == icon_authors(av.take(j as int)).len(),
            forall|m: int|
                0 <= m < preferred@.len() ==> #[trigger] preferred@[m] < j && av[preferred@[m] as int]
                    == icon_authors(av.take(j as int))[m],
        decreases authors.len() - j,
    {
        proof {
            assert(av.take(j + 1).drop_last() =~= av.take(j as int));
        }
        if authors[j].has_user_icon {
            preferred.push(j);
        }
        j = j + 1;
    }
    assert(av.take(authors.len() as int) =~= av);
    let ghost pref = icon_authors(av);
    let mut out: Vec<RawEntry> = Vec::new();
    let mut i: usize = 0;
    while i < titles.len()
        invariant
            i <= titles.len(),
            av == author_views(authors@),
            tv == link_views(titles@),
            pref == icon_authors(av),
            preferred@.len() == pref.len(),
            forall|m: int|
                0 <= m < preferred@.len() ==> #[trigger] preferred@[m] < authors.len() && av[preferred@[m] as int]
                    == pref[m],
            entry_views(out@) == link_entries(tv, av, i as nat),
        decreases titles.len() - i,
    {
        let author: Vec<char> = if i < preferred.len() {
            trim_exec(&str_chars(authors[preferred[i]].text.as_str()))
        } else if i < authors.len() {
            trim_exec(&str_chars(authors[i].text.as_str()))
        } else {
            Vec::new()
        };
        assert(author@ == paired_author(pref, av, i as int));
        match entry_for_link(&titles[i], &author) {
            Some(e) => {
                out.push(e);
                assert(entry_views(out@) =~= link_entries(tv, av, i as nat).push(
                    (e.md5@, e.title@, e.author@),
                ));
            },
            None => {},
        }
        i = i + 1;
    }
    out
}

/// The search results listed on an archive result page (as `scraper` parses
/// it): from its result rows, or, where no row gives one, from its title and
/// author links paired by position.
pub fn parse_search_results(html: &str) -> (r: Vec<RawEntry>)
    ensures
        entry_views(r@) == search_entries(
            page_search_rows(html@),
            page_title_links(html@),
            page_author_links(html@),
        ),
{
    let page = parse_page(html);
    let rows = search_rows(&page);
    let entries = entries_from_rows(&rows);
    if entries.len() > 0 {
        return entries;
    }
    let titles = title_links(&page);
    let authors = author_links(&page);
    entries_from_links(&titles, &authors)
}

/// Whether the archive's page reports a failed search.
pub fn has_search_error(html: &str) -> (r: bool)
    ensures
        r == contains_sub(html@, SEARCH_ERROR_TEXT@),
{
    contains(&str_chars(html), &str_chars(SEARCH_ERROR_TEXT))
}


// ---------------------------------------------------------------------------
// Download page
// ---------------------------------------------------------------------------
/// `s` starts with `p`.
pub open spec fn has_prefix(s: Seq<char>, p: Seq<char>) -> bool {
    strip_prefix(s, p) is Some
}

/// A value that, trimmed, starts with `http://` or `https://`.
pub open spec fn looks_like_download(v: Seq<char>) -> bool {
    has_prefix(trim(v), "http://"@) || has_prefix(trim(v), "https://"@)
}

/// The first candidate that looks like a download URL.
pub open spec fn first_download(cands: Seq<Seq<char>>) -> Option<Seq<char>>
    decreases cands.len(),
{
    if cands.len() == 0 {
        None
    } else if looks_like_download(cands[0]) {
        Some(cands[0])
    } else {
        first_download(cands.drop_first())
    }
}

/// The candidates of a download page, in the order they are tried: the
/// `span.break-all` texts trimmed, the link targets, then the `.break-all`
/// texts trimmed.
pub open spec fn download_candidates(
    spans: Seq<Seq<char>>,
    hrefs: Seq<Seq<char>>,
    breaks: Seq<Seq<char>>,
) -> Seq<Seq<char>> {
    spans.map_values(|t: Seq<char>| trim(t)) + hrefs + breaks.map_values(|t: Seq<char>| trim(t))
}

/// The first position at or after `i` where `p` occurs in `s`.
pub open spec fn find_from(s: Seq<char>, p: Seq<char>, i: int) -> Option<int>
    decreases s.len() + 1 - i,
{
    if i < 0 || i + p.len() > s.len() {
        None
    } else if occurs_at(s, p, i) {
        Some(i)
    } else {
        find_from(s, p, i + 1)
    }
}

/// A character that ends a URL written in a page: whitespace, a quote or a
/// tag's start.
pub open spec fn url_stop(c: char) -> bool {
    is_ws(c) || c == '"' || c == '\'' || c == '<'
}

/// The length of the URL at the start of `t`: up to the first stop
/// character at or after `j`.
pub open spec fn url_len_from(t: Seq<char>, j: int) -> int
    decreases t.len() - j,
{
    if j < 0 || j >= t.len() {
        t.len() as int
    } else if url_stop(t[j]) {
        j
    } else {
        url_len_from(t, j + 1)
    }
}

/// The first URL written in a page: from the first `https://` (else the
/// first `http://`) up to the next stop character, trimmed.
pub open spec fn first_http(html: Seq<char>) -> Option<Seq<char>> {
    let start = match find_from(html, "https://"@, 0) {
        Some(i) => Some(i),
        None => find_from(html, "http://"@, 0),
    };
    match start {
        Some(i) => {
            let tail = html.skip(i);
            let candidate = trim(tail.take(url_len_from(tail, 0)));
            if looks_like_download(candidate) {
                Some(candidate)
            } else {
                None
            }
        },
        None => None,
    }
}

/// Whether a value, trimmed, starts with `http://` or `https://`.
pub fn looks_like_download_url(value: &Vec<char>) -> (r: bool)
    ensures
        r == looks_like_download(value@),
{
    let t = trim_exec(value);
    strip_prefix_exec(&t, &str_chars("http://")).is_some() || strip_prefix_exec(
        &t,
        &str_chars("https://"),
    ).is_some()
}

fn find_str(s: &Vec<char>, p: &Vec<char>) -> (r: Option<usize>)
    ensures
        match r {
            Some(i) => find_from(s@, p@, 0) == Some(i as int),
            None => find_from(s@, p@, 0) is None,
        },
{
    if p.len() > s.len() {
        return None;
    }
    let last = s.len() - p.len();
    let mut i: usize = 0;
    while i <= last
        invariant
            last + p.len() == s.len(),
            find_from(s@, p@, 0) == find_from(s@, p@, i as int),
        decreases last + 1 - i,
    {
        if occurs_at_exec(s, p, i) {
            return Some(i);
        }
        if i == last {
            assert(find_from(s@, p@, i + 1) is None);
            return None;
        }
        i = i + 1;
    }
    None
}

/// The first URL written in a page's text.
pub fn first_http_url(html: &str) -> (r: Option<String>)
    ensures
        opt_string_view(r) == first_http(html@),
{
    let s = str_chars(html);
    let start = match find_str(&s, &str_chars("https://")) {
        Some(i) => i,
        None => match find_str(&s, &str_chars("http://")) {
            Some(i) => i,
            None => return None,
        },
    };
    proof {
        assert(start <= s.len()) by {
            if find_from(s@, "https://"@, 0) == Some(start as int) {
                lemma_find_from_bound(s@, "https://"@, 0);
            } else {
                lemma_find_from_bound(s@, "http://"@, 0);
            }
        }
    }
    let tail = slice_chars(&s, start, s.len());
    assert(tail@ =~= s@.skip(start as int));
    let mut end: usize = 0;
    while end < tail.len() && !(is_whitespace_char(tail[end]) || tail[end] == '"' || tail[end]
        == '\'' || tail[end] == '<')
        invariant
            end <= tail.len(),
            url_len_from(tail@, 0) == url_len_from(tail@, end as int),
        decreases tail.len() - end,
    {
        end = end + 1;
    }
    let candidate = trim_exec(&slice_chars(&tail, 0, end));
    assert(tail@.subrange(0, end as int) =~= tail@.take(end as int));
    if looks_like_download_url(&candidate) {
        Some(string_of(&candidate))
    } else {
        None
    }
}

proof fn lemma_find_from_bound(s: Seq<char>, p: Seq<char>, i: int)
    ensures
        find_from(s, p, i) matches Some(k) ==> i <= k && k + p.len() <= s.len(),
    decreases s.len() + 1 - i,
{
    if !(i < 0 || i + p.len() > s.len()) && !occurs_at(s, p, i) {
        lemma_find_from_bound(s, p, i + 1);
    }
}

/// No download link was found on a download page.
#[derive(Debug, Clone, Copy, PartialEq, Eq, Structural)]
pub struct DownloadUrlNotFound;

impl DownloadUrlNotFound {
    /// The error's message.
    pub fn message(&self) -> (r: &'static str)
        ensures
            r@ == "download URL not found in slow_download page"@,
    {
        "download URL not found in slow_download page"
    }
}

/// The download URL among a download page's candidates, else the first URL
/// written anywhere in the page's text.
pub fn download_url_from(
    spans: &Vec<String>,
    hrefs: &Vec<String>,
    breaks: &Vec<String>,
    html: &str,
) -> (r: Option<String>)
    ensures
        opt_string_view(r) == match first_download(
            download_candidates(texts(spans@), texts(hrefs@), texts(breaks@)),
        ) {
            Some(u) => Some(u),
            None => first_http(html@),
        },
        forall|k: int|
            0 <= k < spans@.len() && looks_like_download(trim(spans@[k]@)) && (forall|j: int|
                0 <= j < k ==> !looks_like_download(trim(#[trigger] spans@[j]@))) ==> opt_string_view(
                r,
            ) == Some(trim(spans@[k]@)),
{
    let r = first_download_url(spans, hrefs, breaks, html);
    proof {
        assert forall|k: int|
            0 <= k < spans@.len() && looks_like_download(trim(spans@[k]@)) && (forall|j: int|
                0 <= j < k ==> !looks_like_download(trim(#[trigger] spans@[j]@))) implies first_download(
            download_candidates(texts(spans@), texts(hrefs@), texts(breaks@)),
        ) == Some(trim(spans@[k]@)) by {
            let ts = texts(spans@);
            assert forall|j: int| 0 <= j < k implies !looks_like_download(trim(#[trigger] ts[j])) by {
                assert(ts[j] == spans@[j]@);
            }
            lemma_break_all_span_comes_first(ts, texts(hrefs@), texts(breaks@), k);
        }
    }
    r
}

/// The first candidate that looks like a download URL, else the first URL
/// written in the page, by walking the candidates in order.
fn first_download_url(
    spans: &Vec<String>,
    hrefs: &Vec<String>,
    breaks: &Vec<String>,
    html: &str,
) -> (r: Option<String>)
    ensures
        opt_string_view(r) == match first_download(
            download_candidates(texts(spans@), texts(hrefs@), texts(breaks@)),
        ) {
            Some(u) => Some(u),
            None => first_http(html@),
        },
{
    let ghost cands = download_candidates(texts(spans@), texts(hrefs@), texts(breaks@));
    let ghost a = texts(spans@).map_values(|t: Seq<char>| trim(t));
    let ghost b = texts(hrefs@);
    let ghost c = texts(breaks@).map_values(|t: Seq<char>| trim(t));
    let ghost rest = match first_download(c) {
        Some(u) => Some(u),
        None => first_http(html@),
    };
    proof {
        assert(cands =~= a + (b + c));
        lemma_first_download_append(a, b + c);
        lemma_first_download_append(b, c);
        assert(a.skip(0) =~= a);
        assert(b.skip(0) =~= b);
        assert(c.skip(0) =~= c);
    }
    let mut i: usize = 0;
    while i < spans.len()
        invariant
            i <= spans.len(),
            cands == download_candidates(texts(spans@), texts(hrefs@), texts(breaks@)),
            a == texts(spans@).map_values(|t: Seq<char>| trim(t)),
            (match first_download(cands) {
                Some(u) => Some(u),
                None => first_http(html@),
            }) == (match first_download(a.skip(i as int)) {
                Some(u) => Some(u),
                None => match first_download(b) {
                    Some(u) => Some(u),
                    None => rest,
                },
            }),
        decreases spans.len() - i,
    {
        proof {
            assert(a.skip(i as int).drop_first() =~= a.skip(i + 1));
            assert(a.skip(i as int)[0] == a[i as int]);
        }
        let t = trim_exec(&str_chars(spans[i].as_str()));
        if looks_like_download_url(&t) {
            return Some(string_of(&t));
        }
        i = i + 1;
    }
    assert(a.skip(spans.len() as int) =~= Seq::<Seq<char>>::empty());
    let mut i: usize = 0;
    while i < hrefs.len()
        invariant
            i <= hrefs.len(),
            cands == download_candidates(texts(spans@), texts(hrefs@), texts(breaks@)),
            b == texts(hrefs@),
            (match first_download(cands) {
                Some(u) => Some(u),
                None => first_http(html@),
            }) == (match first_download(b.skip(i as int)) {
                Some(u) => Some(u),
                None => rest,
            }),
        decreases hrefs.len() - i,
    {
        proof {
            assert(b.skip(i as int).drop_first() =~= b.skip(i + 1));
            assert(b.skip(i as int)[0] == b[i as int]);
        }
        if looks_like_download_url(&str_chars(hrefs[i].as_str())) {
            return Some(hrefs[i].clone());
        }
        i = i + 1;
    }
    assert(b.skip(hrefs.len() as int) =~= Seq::<Seq<char>>::empty());
    let mut i: usize = 0;
    while i < breaks.len()
        invariant
            i <= breaks.len(),
            cands == download_candidates(texts(spans@), texts(hrefs@), texts(breaks@)),
            c == texts(breaks@).map_values(|t: Seq<char>| trim(t)),
            (match first_download(cands) {
                Some(u) => Some(u),
                None => first_http(html@),
            }) == (match first_download(c.skip(i as int)) {
                Some(u) => Some(u),
                None => first_http(html@),
            }),
        decreases breaks.len() - i,
    {
        proof {
            assert(c.skip(i as int).drop_first() =~= c.skip(i + 1));
            assert(c.skip(i as int)[0] == c[i as int]);
        }
        let t = trim_exec(&str_chars(breaks[i].as_str()));
        if looks_like_download_url(&t) {
            return Some(string_of(&t));
        }
        i = i + 1;
    }
    assert(c.skip(breaks.len() as int) =~= Seq::<Seq<char>>::empty());
    first_http_url(html)
}

proof fn lemma_first_download_append(x: Seq<Seq<char>>, y: Seq<Seq<char>>)
    ensures
        first_download(x + y) == match first_download(x) {
            Some(u) => Some(u),
            None => first_download(y),
        },
    decreases x.len(),
{
    if x.len() > 0 {
        assert((x + y).drop_first() =~= x.drop_first() + y);
        lemma_first_download_append(x.drop_first(), y);
    } else {
        assert(x + y =~= y);
    }
}

proof fn lemma_first_download_at(c: Seq<Seq<char>>, k: int)
    requires
        0 <= k < c.len(),
        looks_like_download(c[k]),
        forall|j: int| 0 <= j < k ==> !looks_like_download(#[trigger] c[j]),
    ensures
        first_download(c) == Some(c[k]),
    decreases k,
{
    if k > 0 {
        assert forall|j: int| 0 <= j < k - 1 implies !looks_like_download(
            #[trigger] c.drop_first()[j],
        ) by {
            assert(c.drop_first()[j] == c[j + 1]);
        }
        lemma_first_download_at(c.drop_first(), k - 1);
    }
}

/// A `span.break-all` text whose trimmed form is an HTTP URL wins: the
/// download URL is the first such span text, trimmed, whatever links and
/// other texts the page holds.
pub proof fn lemma_break_all_span_comes_first(
    spans: Seq<Seq<char>>,
    hrefs: Seq<Seq<char>>,
    breaks: Seq<Seq<char>>,
    k: int,
)
    requires
        0 <= k < spans.len(),
        looks_like_download(trim(spans[k])),
        forall|j: int| 0 <= j < k ==> !looks_like_download(trim(#[trigger] spans[j])),
    ensures
        first_download(download_candidates(spans, hrefs, breaks)) == Some(trim(spans[k])),
{
    let a = spans.map_values(|t: Seq<char>| trim(t));
    let rest = hrefs + breaks.map_values(|t: Seq<char>| trim(t));
    assert(download_candidates(spans, hrefs, breaks) =~= a + rest);
    assert forall|j: int| 0 <= j < k implies !looks_like_download(#[trigger] a[j]) by {
        assert(a[j] == trim(spans[j]));
    }
    lemma_first_download_at(a, k);
    lemma_first_download_append(a, rest);
}

/// The download URL on an archive download page (as `scraper` parses it):
/// the first `span.break-all` text, link target or `.break-all` text that
/// looks like an HTTP URL, else the first URL written in the page.
pub fn parse_download_url(html: &str) -> (r: Result<String, DownloadUrlNotFound>)
    ensures
        match r {
            Ok(u) => Some(u@) == download_url_spec(html@),
            Err(_) => download_url_spec(html@) is None,
        },
        forall|k: int|
            0 <= k < page_break_all_spans(html@).len() && looks_like_download(
                trim(page_break_all_spans(html@)[k]),
            ) && (forall|j: int|
                0 <= j < k ==> !looks_like_download(trim(#[trigger] page_break_all_spans(html@)[j])))
                ==> (r matches Ok(u) && u@ == trim(page_break_all_spans(html@)[k])),
{
    proof {
        let sp = page_break_all_spans(html@);
        assert forall|k: int|
            0 <= k < sp.len() && looks_like_download(trim(sp[k])) && (forall|j: int|
                0 <= j < k ==> !looks_like_download(trim(#[trigger] sp[j]))) implies download_url_spec(
            html@,
        ) == Some(trim(sp[k])) by {
            lemma_break_all_span_comes_first(sp, page_link_hrefs(html@), page_break_all_texts(html@), k);
        }
    }
    let page = parse_page(html);
    let spans = break_all_spans(&page);
    let hrefs = link_hrefs(&page);
    let breaks = break_all_texts(&page);
    match download_url_from(&spans, &hrefs, &breaks, html) {
        Some(u) => Ok(u),
        None => Err(DownloadUrlNotFound),
    }
}

/// The download URL a page gives, as `parse_download_url` finds it.
pub open spec fn download_url_spec(html: Seq<char>) -> Option<Seq<char>> {
    match first_download(
        download_candidates(
            page_break_all_spans(html),
            page_link_hrefs(html),
            page_break_all_texts(html),
        ),
    ) {
        Some(u) => Some(u),
        None => first_http(html),
    }
}


proof fn lemma_first_download_looks_like(cands: Seq<Seq<char>>)
    ensures
        first_download(cands) matches Some(u) ==> looks_like_download(u),
    decreases cands.len(),
{
    if cands.len() > 0 && !looks_like_download(cands[0]) {
        lemma_first_download_looks_like(cands.drop_first());
    }
}

/// The download URL read from a page is always an `http://` or `https://`
/// URL (once trimmed), whichever way it was found.
pub proof fn lemma_download_url_is_http(html: Seq<char>)
    ensures
        download_url_spec(html) matches Some(u) ==> looks_like_download(u),
{
    lemma_first_download_looks_like(
        download_candidates(
            page_break_all_spans(html),
            page_link_hrefs(html),
            page_break_all_texts(html),
        ),
    );
}

proof fn lemma_row_entries_nonempty(
    rows: Seq<(Option<(Option<Seq<char>>, Seq<char>)>, Seq<(Seq<char>, bool)>)>,
)
    ensures
        forall|i: int|
            0 <= i < row_entries(rows).len() ==> (#[trigger] row_entries(rows)[i]).0.len() > 0
                && row_entries(rows)[i].1.len() > 0,
    decreases rows.len(),
{
    if rows.len() > 0 {
        lemma_row_entries_nonempty(rows.drop_last());
        let prev = row_entries(rows.drop_last());
        match rows.last().0 {
            Some(l) => match entry_from_link(l, row_author(rows.last().1)) {
                Some(e) => {
                    assert(e.0.len() > 0 && e.1.len() > 0);
                    assert forall|i: int| 0 <= i < row_entries(rows).len() implies (
                    #[trigger] row_entries(rows)[i]).0.len() > 0 && row_entries(rows)[i].1.len()
                        > 0 by {
                        if i < prev.len() {
                            assert(row_entries(rows)[i] == prev[i]);
                        }
                    }
                },
                None => {},
            },
            None => {},
        }
    }
}

proof fn lemma_link_entries_nonempty(
    titles: Seq<(Option<Seq<char>>, Seq<char>)>,
    authors: Seq<(Seq<char>, bool)>,
    n: nat,
)
    ensures
        forall|i: int|
            0 <= i < link_entries(titles, authors, n).len() ==> (#[trigger] link_entries(
                titles,
                authors,
                n,
            )[i]).0.len() > 0 && link_entries(titles, authors, n)[i].1.len() > 0,
    decreases n,
{
    if n > 0 {
        lemma_link_entries_nonempty(titles, authors, (n - 1) as nat);
        let prev = link_entries(titles, authors, (n - 1) as nat);
        match entry_from_link(titles[n - 1], paired_author(icon_authors(authors), authors, n - 1)) {
            Some(e) => {
                assert(e.0.len() > 0 && e.1.len() > 0);
                assert forall|i: int| 0 <= i < link_entries(titles, authors, n).len() implies (
                #[trigger] link_entries(titles, authors, n)[i]).0.len() > 0 && link_entries(
                    titles,
                    authors,
                    n,
                )[i].1.len() > 0 by {
                    if i < prev.len() {
                        assert(link_entries(titles, authors, n)[i] == prev[i]);
                    }
                }
            },
            None => {},
        }
    }
}

/// Every search result read from a page has a book hash and a title that
/// are not blank.
pub proof fn lemma_search_entries_have_hash_and_title(
    rows: Seq<(Option<(Option<Seq<char>>, Seq<char>)>, Seq<(Seq<char>, bool)>)>,
    titles: Seq<(Option<Seq<char>>, Seq<char>)>,
    authors: Seq<(Seq<char>, bool)>,
)
    ensures
        forall|i: int|
            0 <= i < search_entries(rows, titles, authors).len() ==> (#[trigger] search_entries(
                rows,
                titles,
                authors,
            )[i]).0.len() > 0 && search_entries(rows, titles, authors)[i].1.len() > 0,
{
    lemma_row_entries_nonempty(rows);
    lemma_link_entries_nonempty(titles, authors, titles.len());
}

} // verus!
