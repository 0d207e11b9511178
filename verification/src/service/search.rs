//! Search queries: normalization, cache keys, result de-duplication and the
//! ranking of the books found.
use vstd::prelude::*;

use crate::encoding::{url_encode, url_encode_str};
use crate::models::{BookEntry, InlineInfo};
use crate::scraper::{
    entry_views, has_search_error, page_author_links, page_search_rows, page_title_links,
    parse_search_results, search_entries, RawEntry, SEARCH_ERROR_TEXT,
};
use crate::sorting::{key_ints, lemma_lex_le_at, lemma_lex_le_skip, lex_le, sort_by_keys, sorted_by_key};
use crate::text::{
    alphanumeric, char_views, contains, contains_sub, dec_nat, fold_text, fold_text_exec, is_alphanumeric,
    owned, push_chars, push_str, squash_whitespace, squash_ws, is_squashed, lemma_squash_ws_is_squashed, str_chars, string_of, u64_to_dec,
    utf8_len, utf8_width,
};

verus! {

broadcast use vstd::seq_lib::group_seq_properties;

// ---------------------------------------------------------------------------
// Specifications
// ---------------------------------------------------------------------------
/// The character sequences held by a vector of strings.
pub open spec fn string_views(v: Seq<String>) -> Seq<Seq<char>> {
    v.map_values(|w: String| w@)
}

/// The pieces of `s` between non-alphanumeric characters, empty pieces
/// included (`str::split(|c| !c.is_alphanumeric())`).
pub open spec fn split_non_alnum(s: Seq<char>) -> Seq<Seq<char>>
    decreases s.len(),
{
    if s.len() == 0 {
        seq![Seq::<char>::empty()]
    } else {
        let prev = split_non_alnum(s.drop_last());
        if !alphanumeric(s.last()) {
            prev.push(Seq::<char>::empty())
        } else {
            prev.update(prev.len() - 1, prev.last().push(s.last()))
        }
    }
}

/// The pieces at least two bytes long (in UTF-8), in order.
pub open spec fn long_pieces(ps: Seq<Seq<char>>) -> Seq<Seq<char>>
    decreases ps.len(),
{
    if ps.len() == 0 {
        Seq::empty()
    } else if utf8_len(ps.last()) >= 2 {
        long_pieces(ps.drop_last()).push(ps.last())
    } else {
        long_pieces(ps.drop_last())
    }
}

/// The search terms of a normalized query.
pub open spec fn spec_query_terms(q: Seq<char>) -> Seq<Seq<char>> {
    long_pieces(split_non_alnum(q))
}

/// How many of `terms` occur in `s`.
pub open spec fn count_hits(terms: Seq<Seq<char>>, s: Seq<char>) -> nat
    decreases terms.len(),
{
    if terms.len() == 0 {
        0
    } else {
        count_hits(terms.drop_last(), s) + if contains_sub(s, terms.last()) {
            1nat
        } else {
            0nat
        }
    }
}

/// 1 for true, 0 for false.
pub open spec fn flag(b: bool) -> int {
    if b {
        1
    } else {
        0
    }
}

/// The relevance of a book for a folded query `nq` with terms `terms`: exact
/// title match, title containing the whole query, number of terms in the
/// title, number of terms in the author (greater is better, compared in that
/// order).
pub open spec fn spec_rank_key(nq: Seq<char>, terms: Seq<Seq<char>>, b: BookEntry) -> (
    int,
    int,
    int,
    int,
) {
    let t = fold_text(b.title@);
    let a = fold_text(b.author@);
    (
        flag(t == nq && nq.len() > 0),
        flag(nq.len() > 0 && contains_sub(t, nq)),
        (count_hits(terms, t) as i32) as int,
        (count_hits(terms, a) as i32) as int,
    )
}

/// Code points of a character sequence.
pub open spec fn code_points(s: Seq<char>) -> Seq<int> {
    s.map_values(|c: char| c as u32 as int)
}

/// The order in which search results are listed, as a lexicographic key:
/// most downloads first, then the most relevant, then by title.
pub open spec fn book_sort_key(nq: Seq<char>, terms: Seq<Seq<char>>, b: BookEntry) -> Seq<int> {
    let r = spec_rank_key(nq, terms, b);
    seq![-(b.downloads as int), -r.0, -r.1, -r.2, -r.3] + code_points(b.title@)
}

/// `book_sort_key` for a fixed query.
pub open spec fn book_key_fn(nq: Seq<char>, terms: Seq<Seq<char>>) -> spec_fn(BookEntry) -> Seq<int> {
    |b: BookEntry| book_sort_key(nq, terms, b)
}

/// The search cache key of a normalized query at `page`.
pub open spec fn spec_search_cache_key(query: Seq<char>, page: nat) -> Seq<char> {
    if page <= 1 {
        query
    } else {
        query + "|page:"@ + dec_nat(page)
    }
}

/// The entries whose md5 does not occur earlier, in their order.
pub open spec fn dedup_md5(s: Seq<RawEntry>) -> Seq<RawEntry>
    decreases s.len(),
{
    if s.len() == 0 {
        Seq::empty()
    } else if exists|j: int| 0 <= j < s.len() - 1 && s[j].md5@ == s.last().md5@ {
        dedup_md5(s.drop_last())
    } else {
        dedup_md5(s.drop_last()).push(s.last())
    }
}

/// The archive search path for a normalized query at `page`.
pub open spec fn spec_archive_search_path(query: Seq<char>, page: nat) -> Seq<char> {
    "/search?q="@ + url_encode(query) + "&page="@ + dec_nat(page)
}

// ---------------------------------------------------------------------------
// Lemmas
// ---------------------------------------------------------------------------
/// A text takes at least as many UTF-8 bytes as it has characters.
pub proof fn lemma_utf8_len_ge(s: Seq<char>)
    ensures
        utf8_len(s) >= s.len(),
    decreases s.len(),
{
    if s.len() > 0 {
        lemma_utf8_len_ge(s.drop_last());
    }
}

/// Every md5 occurs at most once among the de-duplicated entries.
pub proof fn lemma_dedup_unique(s: Seq<RawEntry>)
    ensures
        forall|i: int, j: int|
            0 <= i < j < dedup_md5(s).len() ==> dedup_md5(s)[i].md5@ != dedup_md5(s)[j].md5@,
        forall|k: int|
            0 <= k < dedup_md5(s).len() ==> exists|j: int|
                0 <= j < s.len() && #[trigger] dedup_md5(s)[k] == s[j],
    decreases s.len(),
{
    if s.len() > 0 {
        let d = s.drop_last();
        lemma_dedup_unique(d);
        let prev = dedup_md5(d);
        assert forall|k: int| 0 <= k < prev.len() implies exists|j: int|
            0 <= j < s.len() && #[trigger] prev[k] == s[j] by {
            let j = choose|j: int| 0 <= j < d.len() && prev[k] == d[j];
            assert(s[j] == d[j]);
        }
        if !(exists|j: int| 0 <= j < s.len() - 1 && s[j].md5@ == s.last().md5@) {
            assert forall|k: int| 0 <= k < prev.len() implies prev[k].md5@ != s.last().md5@ by {
                let j = choose|j: int| 0 <= j < d.len() && prev[k] == d[j];
                assert(s[j] == d[j]);
            }
            assert(s[s.len() - 1] == s.last());
        }
    }
}

/// Every md5 of the input occurs among the de-duplicated entries, the
/// first entry that carries it kept.
pub proof fn lemma_dedup_keeps_first(s: Seq<RawEntry>, i: int)
    requires
        0 <= i < s.len(),
        forall|j: int| 0 <= j < i ==> s[j].md5@ != s[i].md5@,
    ensures
        dedup_md5(s).contains(s[i]),
    decreases s.len(),
{
    let d = s.drop_last();
    if i < s.len() - 1 {
        assert(d[i] == s[i]);
        assert forall|j: int| 0 <= j < i implies d[j].md5@ != d[i].md5@ by {
            assert(d[j] == s[j]);
        }
        lemma_dedup_keeps_first(d, i);
        let k = choose|k: int| 0 <= k < dedup_md5(d).len() && dedup_md5(d)[k] == d[i];
        if exists|j: int| 0 <= j < s.len() - 1 && s[j].md5@ == s.last().md5@ {
            assert(dedup_md5(s)[k] == s[i]);
        } else {
            assert(dedup_md5(s)[k] == s[i]);
        }
    } else {
        assert(!(exists|j: int| 0 <= j < s.len() - 1 && s[j].md5@ == s.last().md5@));
        assert(dedup_md5(s)[dedup_md5(s).len() - 1] == s[i]);
    }
}

// ---------------------------------------------------------------------------
// Executable code
// ---------------------------------------------------------------------------
/// The query with its words joined by single spaces: no leading, trailing
/// or doubled whitespace is left.
pub fn normalize_query(query: &str) -> (r: String)
    ensures
        r@ == squash_ws(query@),
        is_squashed(r@),
{
    proof {
        lemma_squash_ws_is_squashed(query@);
    }
    let chars = str_chars(query);
    string_of(&squash_whitespace(&chars))
}

/// `value` lowercased, with its words joined by single spaces.
pub fn fold_text_string(value: &str) -> (r: String)
    ensures
        r@ == fold_text(value@),
{
    string_of(&fold_text_exec(value))
}

/// The key under which the feed for a normalized query and page is cached.
pub fn search_cache_key(query: &str, page: usize) -> (r: String)
    ensures
        r@ == spec_search_cache_key(query@, page as nat),
{
    if page <= 1 {
        owned(query)
    } else {
        let mut r = owned(query);
        push_str(&mut r, "|page:");
        let digits = u64_to_dec(page as u64);
        push_chars(&mut r, &digits);
        r
    }
}

/// The path of the archive's result page for a normalized query and page.
pub fn archive_search_path(query: &str, page: usize) -> (r: String)
    ensures
        r@ == spec_archive_search_path(query@, page as nat),
{
    let encoded = url_encode_str(query);
    let mut r = owned("/search?q=");
    push_str(&mut r, encoded.as_str());
    push_str(&mut r, "&page=");
    let digits = u64_to_dec(page as u64);
    push_chars(&mut r, &digits);
    r
}

/// Whether the UTF-8 encoding of `v` is at least two bytes long.
fn at_least_two_bytes(v: &Vec<char>) -> (b: bool)
    ensures
        b == (utf8_len(v@) >= 2),
{
    proof {
        lemma_utf8_len_ge(v@);
    }
    if v.len() >= 2 {
        true
    } else if v.len() == 1 {
        proof {
            assert(v@.drop_last() =~= Seq::<char>::empty());
            assert(utf8_len(Seq::<char>::empty()) == 0);
            assert(v@.last() == v@[0]);
            assert(utf8_len(v@) == utf8_width(v@[0]));
        }
        (v[0] as u32) >= 0x80
    } else {
        false
    }
}

/// The search terms of a normalized query: its alphanumeric runs that are
/// at least two bytes long.
pub fn query_terms(query: &Vec<char>) -> (r: Vec<Vec<char>>)
    ensures
        char_views(r@) == spec_query_terms(query@),
{
    let mut done: Vec<Vec<char>> = Vec::new();
    let mut cur: Vec<char> = Vec::new();
    let mut i: usize = 0;
    while i < query.len()
        invariant
            i <= query.len(),
            char_views(done@).push(cur@) == split_non_alnum(query@.take(i as int)),
        decreases query.len() - i,
    {
        let c = query[i];
        proof {
            assert(query@.take(i + 1).drop_last() =~= query@.take(i as int));
            assert(query@.take(i + 1).last() == c);
        }
        let ghost prev = split_non_alnum(query@.take(i as int));
        if !is_alphanumeric(c) {
            let piece = cur;
            done.push(piece);
            cur = Vec::new();
            proof {
                assert(char_views(done@).push(cur@) =~= prev.push(Seq::<char>::empty()));
            }
        } else {
            cur.push(c);
            proof {
                assert(char_views(done@).push(cur@) =~= prev.update(
                    prev.len() - 1,
                    prev.last().push(c),
                ));
            }
        }
        i = i + 1;
    }
    done.push(cur);
    assert(query@.take(query.len() as int) =~= query@);
    let ghost pieces = char_views(done@);
    assert(pieces == split_non_alnum(query@));
    let mut terms: Vec<Vec<char>> = Vec::new();
    let mut k: usize = 0;
    while k < done.len()
        invariant
            k <= done.len(),
            pieces == char_views(done@),
            char_views(terms@) == long_pieces(pieces.take(k as int)),
        decreases done.len() - k,
    {
        proof {
            assert(pieces.take(k + 1).drop_last() =~= pieces.take(k as int));
        }
        if at_least_two_bytes(&done[k]) {
            let w = slice_all(&done[k]);
            terms.push(w);
            proof {
                assert(char_views(terms@) =~= long_pieces(pieces.take(k as int)).push(pieces[k as int]));
            }
        }
        k = k + 1;
    }
    assert(pieces.take(done.len() as int) =~= pieces);
    terms
}

/// A copy of a character vector.
fn slice_all(v: &Vec<char>) -> (r: Vec<char>)
    ensures
        r@ == v@,
{
    let r = crate::text::slice_chars(v, 0, v.len());
    assert(r@ =~= v@);
    r
}

/// How many of `terms` occur in `s`.
fn count_hits_exec(terms: &Vec<Vec<char>>, s: &Vec<char>) -> (n: usize)
    ensures
        n == count_hits(char_views(terms@), s@),
{
    let mut n: usize = 0;
    let mut i: usize = 0;
    while i < terms.len()
        invariant
            i <= terms.len(),
            n == count_hits(char_views(terms@).take(i as int), s@),
            n <= i,
        decreases terms.len() - i,
    {
        proof {
            assert(char_views(terms@).take(i + 1).drop_last() =~= char_views(terms@).take(i as int));
        }
        if contains(s, &terms[i]) {
            n = n + 1;
        }
        i = i + 1;
    }
    assert(char_views(terms@).take(terms.len() as int) =~= char_views(terms@));
    n
}

/// The relevance of `book` for the folded query `normalized_query` with
/// terms `query_terms`.
pub fn book_rank_key(normalized_query: &Vec<char>, query_terms: &Vec<Vec<char>>, book: &BookEntry) -> (r: (
    i32,
    i32,
    i32,
    i32,
))
    ensures
        (r.0 as int, r.1 as int, r.2 as int, r.3 as int) == spec_rank_key(
            normalized_query@,
            char_views(query_terms@),
            *book,
        ),
{
    let title = fold_text_exec(book.title.as_str());
    let author = fold_text_exec(book.author.as_str());
    let exact: i32 = if crate::text::chars_eq(&title, normalized_query) && normalized_query.len() > 0 {
        1
    } else {
        0
    };
    let full: i32 = if normalized_query.len() > 0 && contains(&title, normalized_query) {
        1
    } else {
        0
    };
    let title_hits = count_hits_exec(query_terms, &title);
    let author_hits = count_hits_exec(query_terms, &author);
    (exact, full, title_hits as i32, author_hits as i32)
}

/// The sort key of `book` (see `book_sort_key`).
fn book_key_exec(normalized_query: &Vec<char>, query_terms: &Vec<Vec<char>>, book: &BookEntry) -> (k: Vec<i128>)
    ensures
        key_ints(k@) == book_sort_key(normalized_query@, char_views(query_terms@), *book),
{
    let r = book_rank_key(normalized_query, query_terms, book);
    let mut k: Vec<i128> = Vec::new();
    k.push(-(book.downloads as i128));
    k.push(-(r.0 as i128));
    k.push(-(r.1 as i128));
    k.push(-(r.2 as i128));
    k.push(-(r.3 as i128));
    let title = str_chars(book.title.as_str());
    let mut i: usize = 0;
    while i < title.len()
        invariant
            i <= title.len(),
            title@ == book.title@,
            k@.len() == 5 + i,
            key_ints(k@) == book_sort_key(normalized_query@, char_views(query_terms@), *book).take(5 + i),
        decreases title.len() - i,
    {
        k.push(title[i] as u32 as i128);
        i = i + 1;
        proof {
            let full = book_sort_key(normalized_query@, char_views(query_terms@), *book);
            assert(key_ints(k@) =~= full.take(5 + i));
        }
    }
    proof {
        let full = book_sort_key(normalized_query@, char_views(query_terms@), *book);
        assert(full.take(5 + i) =~= full);
    }
    k
}

/// Orders search results for `query`: most downloaded first, then by
/// relevance to the query, then by title. Books that compare equal may come
/// in any order.
pub fn sort_books_for_query(query: &str, books: &mut Vec<BookEntry>)
    ensures
        final(books)@.to_multiset() == old(books)@.to_multiset(),
        sorted_by_key(
            final(books)@,
            book_key_fn(fold_text(query@), spec_query_terms(fold_text(query@))),
        ),
        forall|i: int, j: int|
            0 <= i < j < final(books)@.len() ==> final(books)@[i].downloads
                >= final(books)@[j].downloads,
        spec_query_terms(fold_text(query@)).len() <= i32::MAX ==> ranked_by_relevance(
            query@,
            final(books)@,
        ),
{
    let normalized = fold_text_exec(query);
    let terms = query_terms(&normalized);
    let ghost key = book_key_fn(normalized@, char_views(terms@));
    let mut items: Vec<BookEntry> = Vec::new();
    std::mem::swap(books, &mut items);
    let mut keys: Vec<Vec<i128>> = Vec::new();
    let mut i: usize = 0;
    while i < items.len()
        invariant
            i <= items.len(),
            keys.len() == i,
            key == book_key_fn(normalized@, char_views(terms@)),
            forall|j: int| 0 <= j < i ==> key_ints(#[trigger] keys@[j]@) == key(items@[j]),
        decreases items.len() - i,
    {
        let k = book_key_exec(&normalized, &terms, &items[i]);
        let ghost old_keys = keys@;
        keys.push(k);
        proof {
            assert forall|j: int| 0 <= j < i + 1 implies key_ints(#[trigger] keys@[j]@) == key(
                items@[j],
            ) by {
                if j < i {
                    assert(keys@[j] == old_keys[j]);
                } else {
                    assert(keys@[j] == k);

                }
            }
        }
        i = i + 1;
    }
    let sorted = sort_by_keys(items, keys, Ghost(key));
    proof {
        lemma_ranking_prefers_downloads(query@, sorted@);
        if spec_query_terms(fold_text(query@)).len() <= i32::MAX {
            lemma_ranking_orders_by_relevance(query@, sorted@);
        }
    }
    *books = sorted;
}

/// The entries whose md5 has not been seen before, in their order.
pub fn dedup_raw_entries(entries: Vec<RawEntry>) -> (r: Vec<RawEntry>)
    ensures
        r@ == dedup_md5(entries@),
{
    let mut seen: Vec<Vec<char>> = Vec::new();
    let mut unique: Vec<RawEntry> = Vec::new();
    let mut i: usize = 0;
    while i < entries.len()
        invariant
            i <= entries.len(),
            unique@ == dedup_md5(entries@.take(i as int)),
            forall|m: Seq<char>|
                (exists|j: int| 0 <= j < i && entries@[j].md5@ == m) <==> char_views(seen@).contains(m),
        decreases entries.len() - i,
    {
        let md5 = str_chars(entries[i].md5.as_str());
        let mut found = false;
        let mut k: usize = 0;
        while k < seen.len()
            invariant
                k <= seen.len(),
                found <==> exists|j: int| 0 <= j < k && seen@[j]@ == md5@,
            decreases seen.len() - k,
        {
            if crate::text::chars_eq(&seen[k], &md5) {
                found = true;
            }
            k = k + 1;
        }
        proof {
            let t = entries@.take(i + 1);
            assert(t.drop_last() =~= entries@.take(i as int));
            assert(t.last() == entries@[i as int]);
            assert((exists|j: int| 0 <= j < t.len() - 1 && t[j].md5@ == t.last().md5@) <==> found) by {
                if found {
                    let j = choose|j: int| 0 <= j < k && seen@[j]@ == md5@;
                    assert(char_views(seen@)[j] == md5@);
                    assert(char_views(seen@).contains(md5@));
                    assert(exists|jj: int| 0 <= jj < i && entries@[jj].md5@ == md5@);
                    let jj = choose|jj: int| 0 <= jj < i && entries@[jj].md5@ == md5@;
                    assert(t[jj] == entries@[jj]);
                    assert(t.last().md5@ == md5@);
                }
                if exists|j: int| 0 <= j < t.len() - 1 && t[j].md5@ == t.last().md5@ {
                    let j = choose|j: int| 0 <= j < t.len() - 1 && t[j].md5@ == t.last().md5@;
                    assert(entries@[j] == t[j]);
                    assert(char_views(seen@).contains(md5@));
                    let q = choose|q: int| 0 <= q < seen.len() && char_views(seen@)[q] == md5@;
                    assert(seen@[q]@ == md5@);
                }
            }
        }
        if !found {
            unique.push(entries[i].copy());
        }
        let ghost old_seen = seen@;
        seen.push(md5);
        proof {
            assert forall|m: Seq<char>|
                (exists|j: int| 0 <= j < i + 1 && entries@[j].md5@ == m) <==> char_views(seen@).contains(m) by {
                assert(char_views(seen@) =~= char_views(old_seen).push(md5@));
                if exists|j: int| 0 <= j < i + 1 && entries@[j].md5@ == m {
                    let j = choose|j: int| 0 <= j < i + 1 && entries@[j].md5@ == m;
                    if j < i {
                        assert(char_views(old_seen).contains(m));
                    } else {
                        assert(char_views(seen@)[old_seen.len() as int] == m);
                    }
                }
                if char_views(seen@).contains(m) {
                    let q = choose|q: int| 0 <= q < seen@.len() && char_views(seen@)[q] == m;
                    if q < old_seen.len() {
                        assert(char_views(old_seen)[q] == m);
                        assert(char_views(old_seen).contains(m));
                    }
                }
            }
        }
        i = i + 1;
    }
    assert(entries@.take(entries.len() as int) =~= entries@);
    unique
}

/// A book built from a search result and its download count, with no
/// metadata yet.
pub fn book_from_raw(entry: RawEntry, downloads: i64) -> (b: BookEntry)
    ensures
        b.md5 == entry.md5,
        b.title == entry.title,
        b.author == entry.author,
        b.downloads == downloads,
        b.cover_url is None,
        b.download_media_type is None,
        b.cover_checked_at is None,
        b.first_publish_year is None,
        b.language is None,
        b.subjects@.len() == 0,
        b.description is None,
{
    BookEntry {
        md5: entry.md5,
        title: entry.title,
        author: entry.author,
        downloads,
        cover_url: None,
        download_media_type: None,
        cover_checked_at: None,
        first_publish_year: None,
        language: None,
        subjects: Vec::new(),
        description: None,
    }
}

/// The download count reported by the archive's inline statistics: the
/// reported total, or 0 when the lookup failed or reported none.
pub fn downloads_from_inline_info(info: Option<&InlineInfo>) -> (n: i64)
    ensures
        n == match info {
            Some(i) => match i.downloads_total {
                Some(d) => d,
                None => 0,
            },
            None => 0,
        },
{
    match info {
        Some(i) => match i.downloads_total {
            Some(d) => d,
            None => 0,
        },
        None => 0,
    }
}

/// The results to list from a parsed result page: whether the page held
/// more than `limit` results, and the first `limit` of them without repeated
/// md5s.
pub fn select_search_results(raw: Vec<RawEntry>, limit: usize) -> (r: (Vec<RawEntry>, bool))
    ensures
        r.1 == (raw.len() > limit),
        r.0@ == dedup_md5(if raw.len() > limit {
            raw@.take(limit as int)
        } else {
            raw@
        }),
{
    let has_more = raw.len() > limit;
    let mut raw = raw;
    raw.truncate(limit);
    (dedup_raw_entries(raw), has_more)
}


/// The archive's inline statistics URL for a book.
pub open spec fn inline_info_url_text(base: Seq<char>, md5: Seq<char>) -> Seq<char> {
    base + "/dyn/md5/inline_info/"@ + md5
}

/// The archive's inline statistics URL for a book.
pub fn inline_info_url(archive_base: &str, md5: &str) -> (r: String)
    ensures
        r@ == inline_info_url_text(archive_base@, md5@),
{
    let mut r = owned(archive_base);
    push_str(&mut r, "/dyn/md5/inline_info/");
    push_str(&mut r, md5);
    r
}

/// The books whose covers are looked up ahead of time: the first occurrence
/// of each hash, where that book has no cover yet.
pub open spec fn prewarm_md5s(books: Seq<BookEntry>) -> Seq<Seq<char>>
    decreases books.len(),
{
    if books.len() == 0 {
        Seq::empty()
    } else {
        let prev = prewarm_md5s(books.drop_last());
        let b = books.last();
        if (exists|j: int| 0 <= j < books.len() - 1 && #[trigger] books[j].md5@ == b.md5@)
            || b.cover_url is Some {
            prev
        } else {
            prev.push(b.md5@)
        }
    }
}

/// The hashes of the books among the first `count` whose covers are looked
/// up ahead of time.
pub fn prewarm_targets(books: &Vec<BookEntry>, count: usize) -> (r: Vec<String>)
    ensures
        string_views(r@) == prewarm_md5s(
            books@.take(
                if count < books@.len() {
                    count as int
                } else {
                    books@.len() as int
                },
            ),
        ),
{
    let n: usize = if count < books.len() {
        count
    } else {
        books.len()
    };
    let mut out: Vec<String> = Vec::new();
    let mut i: usize = 0;
    while i < n
        invariant
            i <= n <= books.len(),
            string_views(out@) == prewarm_md5s(books@.take(i as int)),
        decreases n - i,
    {
        let md5 = str_chars(books[i].md5.as_str());
        let mut seen = false;
        let mut j: usize = 0;
        while j < i
            invariant
                j <= i < books.len(),
                md5@ == books@[i as int].md5@,
                seen <==> exists|k: int| 0 <= k < j && books@[k].md5@ == md5@,
            decreases i - j,
        {
            if crate::text::chars_eq(&str_chars(books[j].md5.as_str()), &md5) {
                seen = true;
            }
            j = j + 1;
        }
        proof {
            let t = books@.take(i + 1);
            assert(t.drop_last() =~= books@.take(i as int));
            assert(t.last() == books@[i as int]);
            assert((exists|k: int| 0 <= k < t.len() - 1 && #[trigger] t[k].md5@ == t.last().md5@)
                <==> seen) by {
                if seen {
                    let k = choose|k: int| 0 <= k < i && books@[k].md5@ == md5@;
                    assert(t[k] == books@[k]);
                }
                if exists|k: int| 0 <= k < t.len() - 1 && #[trigger] t[k].md5@ == t.last().md5@ {
                    let k = choose|k: int| 0 <= k < t.len() - 1 && #[trigger] t[k].md5@ == t.last().md5@;
                    assert(books@[k] == t[k]);
                }
            }
        }
        if !seen && books[i].cover_url.is_none() {
            out.push(books[i].md5.clone());
            assert(string_views(out@) =~= prewarm_md5s(books@.take(i as int)).push(books@[i as int].md5@));
        }
        i = i + 1;
    }
    out
}


/// What an archive result page says.
#[derive(Debug)]
pub enum SearchPage {
    /// The archive reported a failed search (past its last page, say).
    ArchiveError,
    /// The results to list, and whether the page held more than the limit.
    Results { entries: Vec<RawEntry>, has_more: bool },
}

/// What a result page says: the archive's error, or its results as
/// `parse_search_results` reads them, cut to `limit` and without repeated
/// hashes.
pub fn read_search_page(html: &str, limit: usize) -> (r: SearchPage)
    ensures
        contains_sub(html@, SEARCH_ERROR_TEXT@) <==> r is ArchiveError,
        r matches SearchPage::Results { entries, has_more } ==> exists|parsed: Seq<RawEntry>|
            #![trigger entry_views(parsed)]
            entry_views(parsed) == search_entries(
                page_search_rows(html@),
                page_title_links(html@),
                page_author_links(html@),
            ) && has_more == (parsed.len() > limit) && entries@ == dedup_md5(
                if parsed.len() > limit {
                    parsed.take(limit as int)
                } else {
                    parsed
                },
            ),
{
    if has_search_error(html) {
        return SearchPage::ArchiveError;
    }
    let parsed = parse_search_results(html);
    let ghost p = parsed@;
    let (entries, has_more) = select_search_results(parsed, limit);
    SearchPage::Results { entries, has_more }
}

/// The cached copy of a result's book: the last cached book with the same
/// hash.
pub fn cached_book_for(md5: &str, cached: &Vec<BookEntry>) -> (r: Option<BookEntry>)
    ensures
        match r {
            Some(b) => exists|i: int|
                0 <= i < cached@.len() && b.same(cached@[i]) && b.md5@ == md5@ && forall|j: int|
                    i < j < cached@.len() ==> #[trigger] cached@[j].md5@ != md5@,
            None => forall|j: int| 0 <= j < cached@.len() ==> #[trigger] cached@[j].md5@ != md5@,
        },
{
    let key = str_chars(md5);
    let mut i: usize = cached.len();
    while i > 0
        invariant
            i <= cached.len(),
            key@ == md5@,
            forall|j: int| i <= j < cached@.len() ==> #[trigger] cached@[j].md5@ != md5@,
        decreases i,
    {
        i = i - 1;
        if crate::text::chars_eq(&str_chars(cached[i].md5.as_str()), &key) {
            return Some(cached[i].copy());
        }
    }
    None
}


// ---------------------------------------------------------------------------
// Serving a search from the cache
// ---------------------------------------------------------------------------
/// Where a search request stands before the archive is asked.
#[derive(Debug, Clone, Copy, PartialEq, Eq, Structural)]
pub enum SearchPhase {
    /// Nothing done yet.
    Begin,
    /// Waiting for the cached feed.
    AwaitCache,
    /// Waiting to learn whether this request leads the search for its key.
    AwaitClaim,
    /// Waiting, after another request's search, for the cached feed again.
    AwaitRecheck,
    /// Waiting to lead the search after the other request left no feed.
    AwaitReclaim,
    /// This request searches the archive.
    Searching,
    /// Answered or given up.
    Done,
}

/// What the caller reports back.
#[derive(Debug, Clone)]
pub enum SearchEvent {
    /// The request starts.
    Start,
    /// The fresh cached feed for the request's key, if any.
    Cached(Option<String>),
    /// Whether this request now leads the search for its key.
    Claimed(bool),
}

/// What the caller does next.
#[derive(Debug, Clone)]
pub enum SearchAction {
    /// Read the fresh cached feed, then report `Cached`.
    LookupCache,
    /// Answer with this cached feed.
    Serve(String),
    /// Claim the search for the key, then report `Claimed`.
    Claim,
    /// Wait for the leading request to finish, read the cached feed again,
    /// then report `Cached`.
    WaitThenLookup,
    /// Search the archive, holding the claim.
    Search,
    /// The search could not be claimed after waiting: fail the request.
    Fail,
    /// The event does not belong to this phase: nothing is left to do.
    Stop,
}

/// The model of a `SearchAction`.
pub enum SearchActionView {
    LookupCache,
    Serve(Seq<char>),
    Claim,
    WaitThenLookup,
    Search,
    Fail,
    Stop,
}

impl View for SearchAction {
    type V = SearchActionView;

    open spec fn view(&self) -> SearchActionView {
        match self {
            SearchAction::LookupCache => SearchActionView::LookupCache,
            SearchAction::Serve(x) => SearchActionView::Serve(x@),
            SearchAction::Claim => SearchActionView::Claim,
            SearchAction::WaitThenLookup => SearchActionView::WaitThenLookup,
            SearchAction::Search => SearchActionView::Search,
            SearchAction::Fail => SearchActionView::Fail,
            SearchAction::Stop => SearchActionView::Stop,
        }
    }
}

/// One step before the archive search: a fresh cached feed is served; else
/// the first request for a key searches and later ones wait for it, then
/// serve the feed it cached, or search themselves where it left none (and
/// fail where another request claimed the key again in between).
pub open spec fn spec_search_step(phase: SearchPhase, ev: SearchEvent) -> (
    SearchPhase,
    SearchActionView,
) {
    match (phase, ev) {
        (SearchPhase::Begin, SearchEvent::Start) => (
            SearchPhase::AwaitCache,
            SearchActionView::LookupCache,
        ),
        (SearchPhase::AwaitCache, SearchEvent::Cached(Some(x))) => (
            SearchPhase::Done,
            SearchActionView::Serve(x@),
        ),
        (SearchPhase::AwaitCache, SearchEvent::Cached(None)) => (
            SearchPhase::AwaitClaim,
            SearchActionView::Claim,
        ),
        (SearchPhase::AwaitClaim, SearchEvent::Claimed(true)) => (
            SearchPhase::Searching,
            SearchActionView::Search,
        ),
        (SearchPhase::AwaitClaim, SearchEvent::Claimed(false)) => (
            SearchPhase::AwaitRecheck,
            SearchActionView::WaitThenLookup,
        ),
        (SearchPhase::AwaitRecheck, SearchEvent::Cached(Some(x))) => (
            SearchPhase::Done,
            SearchActionView::Serve(x@),
        ),
        (SearchPhase::AwaitRecheck, SearchEvent::Cached(None)) => (
            SearchPhase::AwaitReclaim,
            SearchActionView::Claim,
        ),
        (SearchPhase::AwaitReclaim, SearchEvent::Claimed(true)) => (
            SearchPhase::Searching,
            SearchActionView::Search,
        ),
        (SearchPhase::AwaitReclaim, SearchEvent::Claimed(false)) => (
            SearchPhase::Done,
            SearchActionView::Fail,
        ),
        _ => (SearchPhase::Done, SearchActionView::Stop),
    }
}

/// One step before the archive search, as `spec_search_step` says.
pub fn search_step(phase: SearchPhase, ev: SearchEvent) -> (r: (SearchPhase, SearchAction))
    ensures
        (r.0, r.1@) == spec_search_step(phase, ev),
{
    match (phase, ev) {
        (SearchPhase::Begin, SearchEvent::Start) => (SearchPhase::AwaitCache, SearchAction::LookupCache),
        (SearchPhase::AwaitCache, SearchEvent::Cached(Some(x))) => (SearchPhase::Done, SearchAction::Serve(x)),
        (SearchPhase::AwaitCache, SearchEvent::Cached(None)) => (SearchPhase::AwaitClaim, SearchAction::Claim),
        (SearchPhase::AwaitClaim, SearchEvent::Claimed(true)) => (SearchPhase::Searching, SearchAction::Search),
        (SearchPhase::AwaitClaim, SearchEvent::Claimed(false)) => (
            SearchPhase::AwaitRecheck,
            SearchAction::WaitThenLookup,
        ),
        (SearchPhase::AwaitRecheck, SearchEvent::Cached(Some(x))) => (SearchPhase::Done, SearchAction::Serve(x)),
        (SearchPhase::AwaitRecheck, SearchEvent::Cached(None)) => (SearchPhase::AwaitReclaim, SearchAction::Claim),
        (SearchPhase::AwaitReclaim, SearchEvent::Claimed(true)) => (SearchPhase::Searching, SearchAction::Search),
        (SearchPhase::AwaitReclaim, SearchEvent::Claimed(false)) => (SearchPhase::Done, SearchAction::Fail),
        _ => (SearchPhase::Done, SearchAction::Stop),
    }
}

} // verus!

verus! {

/// Search results are listed most-downloaded first: in a ranked list no book
/// comes before one with more downloads, and among books with as many
/// downloads an exact title match comes first.
pub proof fn lemma_ranking_prefers_downloads(query: Seq<char>, books: Seq<BookEntry>)
    requires
        sorted_by_key(books, book_key_fn(fold_text(query), spec_query_terms(fold_text(query)))),
    ensures
        forall|i: int, j: int|
            0 <= i < j < books.len() ==> books[i].downloads >= books[j].downloads,
        forall|i: int, j: int|
            0 <= i < j < books.len() && books[i].downloads == books[j].downloads ==> spec_rank_key(
                fold_text(query),
                spec_query_terms(fold_text(query)),
                books[i],
            ).0 >= spec_rank_key(fold_text(query), spec_query_terms(fold_text(query)), books[j]).0,
{
    let nq = fold_text(query);
    let terms = spec_query_terms(nq);
    let k = book_key_fn(nq, terms);
    assert forall|i: int, j: int| 0 <= i < j < books.len() implies books[i].downloads
        >= books[j].downloads && (books[i].downloads == books[j].downloads ==> spec_rank_key(
        nq,
        terms,
        books[i],
    ).0 >= spec_rank_key(nq, terms, books[j]).0) by {
        let a = k(books[i]);
        let b = k(books[j]);
        assert(lex_le(a, b));
        assert(a[0] == -(books[i].downloads as int));
        assert(b[0] == -(books[j].downloads as int));
        if books[i].downloads == books[j].downloads {
            assert(a.drop_first()[0] == -spec_rank_key(nq, terms, books[i]).0);
            assert(b.drop_first()[0] == -spec_rank_key(nq, terms, books[j]).0);
            assert(lex_le(a.drop_first(), b.drop_first()));
        }
    }
}


/// The book's folded title is the folded query itself.
pub open spec fn title_is_query(query: Seq<char>, b: BookEntry) -> bool {
    fold_text(query).len() > 0 && fold_text(b.title@) == fold_text(query)
}

/// The book's folded title contains the whole folded query.
pub open spec fn title_has_query(query: Seq<char>, b: BookEntry) -> bool {
    fold_text(query).len() > 0 && contains_sub(fold_text(b.title@), fold_text(query))
}

/// How many of the query's terms occur in the book's folded title.
pub open spec fn title_term_hits(query: Seq<char>, b: BookEntry) -> nat {
    count_hits(spec_query_terms(fold_text(query)), fold_text(b.title@))
}

/// How many of the query's terms occur in the book's folded author.
pub open spec fn author_term_hits(query: Seq<char>, b: BookEntry) -> nat {
    count_hits(spec_query_terms(fold_text(query)), fold_text(b.author@))
}

/// `x` may be listed before `y`, books with as many downloads, by
/// relevance: an exact title match first, then a title containing the whole
/// query, then titles holding more of the query's terms, then authors
/// holding more of them, then titles in code point order; `x` is not worse
/// than `y` by the first of these in which they differ.
pub open spec fn ranks_before(query: Seq<char>, x: BookEntry, y: BookEntry) -> bool {
    &&& (title_is_query(query, y) ==> title_is_query(query, x))
    &&& (title_is_query(query, x) == title_is_query(query, y) && title_has_query(query, y)
        ==> title_has_query(query, x))
    &&& (title_is_query(query, x) == title_is_query(query, y) && title_has_query(query, x)
        == title_has_query(query, y) ==> title_term_hits(query, x) >= title_term_hits(query, y))
    &&& (title_is_query(query, x) == title_is_query(query, y) && title_has_query(query, x)
        == title_has_query(query, y) && title_term_hits(query, x) == title_term_hits(query, y)
        ==> author_term_hits(query, x) >= author_term_hits(query, y))
    &&& (title_is_query(query, x) == title_is_query(query, y) && title_has_query(query, x)
        == title_has_query(query, y) && title_term_hits(query, x) == title_term_hits(query, y)
        && author_term_hits(query, x) == author_term_hits(query, y) ==> lex_le(
        code_points(x.title@),
        code_points(y.title@),
    ))
}

/// `books` is listed most relevant first among equally downloaded books
/// (see `ranks_before`).
pub open spec fn ranked_by_relevance(query: Seq<char>, books: Seq<BookEntry>) -> bool {
    forall|i: int, j: int|
        0 <= i < j < books.len() && books[i].downloads == books[j].downloads ==> ranks_before(
            query,
            #[trigger] books[i],
            #[trigger] books[j],
        )
}

proof fn lemma_count_hits_bound(terms: Seq<Seq<char>>, s: Seq<char>)
    ensures
        count_hits(terms, s) <= terms.len(),
    decreases terms.len(),
{
    if terms.len() > 0 {
        lemma_count_hits_bound(terms.drop_last(), s);
    }
}

proof fn lemma_ranks_before(query: Seq<char>, x: BookEntry, y: BookEntry)
    requires
        ({
            let nq = fold_text(query);
            let terms = spec_query_terms(nq);
            lex_le(book_sort_key(nq, terms, x), book_sort_key(nq, terms, y))
        }),
        spec_query_terms(fold_text(query)).len() <= i32::MAX,
        x.downloads == y.downloads,
    ensures
        ranks_before(query, x, y),
{
    let nq = fold_text(query);
    let terms = spec_query_terms(nq);
    let a = book_sort_key(nq, terms, x);
    let b = book_sort_key(nq, terms, y);
    let rx = spec_rank_key(nq, terms, x);
    let ry = spec_rank_key(nq, terms, y);
    lemma_count_hits_bound(terms, fold_text(x.title@));
    lemma_count_hits_bound(terms, fold_text(y.title@));
    lemma_count_hits_bound(terms, fold_text(x.author@));
    lemma_count_hits_bound(terms, fold_text(y.author@));
    assert(rx.2 == title_term_hits(query, x));
    assert(ry.2 == title_term_hits(query, y));
    assert(rx.3 == author_term_hits(query, x));
    assert(ry.3 == author_term_hits(query, y));
    assert(rx.0 == flag(title_is_query(query, x)));
    assert(ry.0 == flag(title_is_query(query, y)));
    assert(rx.1 == flag(title_has_query(query, x)));
    assert(ry.1 == flag(title_has_query(query, y)));
    assert(a[0] == -(x.downloads as int) && b[0] == -(y.downloads as int));
    assert(a[1] == -rx.0 && b[1] == -ry.0);
    assert(a[2] == -rx.1 && b[2] == -ry.1);
    assert(a[3] == -rx.2 && b[3] == -ry.2);
    assert(a[4] == -rx.3 && b[4] == -ry.3);
    lemma_lex_le_at(a, b, 1);
    if rx.0 == ry.0 {
        lemma_lex_le_at(a, b, 2);
        if rx.1 == ry.1 {
            lemma_lex_le_at(a, b, 3);
            if rx.2 == ry.2 {
                lemma_lex_le_at(a, b, 4);
                if rx.3 == ry.3 {
                    lemma_lex_le_skip(a, b, 5);
                    assert(a.skip(5) =~= code_points(x.title@));
                    assert(b.skip(5) =~= code_points(y.title@));
                }
            }
        }
    }
}

/// Relevance among equally downloaded books: a ranked list is listed most
/// relevant first (see `ranks_before`). (The counts are compared as `i32`,
/// so the law is stated for queries of at most `i32::MAX` terms.)
pub proof fn lemma_ranking_orders_by_relevance(query: Seq<char>, books: Seq<BookEntry>)
    requires
        sorted_by_key(books, book_key_fn(fold_text(query), spec_query_terms(fold_text(query)))),
        spec_query_terms(fold_text(query)).len() <= i32::MAX,
    ensures
        ranked_by_relevance(query, books),
{
    assert forall|i: int, j: int|
        0 <= i < j < books.len() && books[i].downloads == books[j].downloads implies ranks_before(
        query,
        #[trigger] books[i],
        #[trigger] books[j],
    ) by {
        lemma_ranks_before(query, books[i], books[j]);
    }
}

} // verus!
