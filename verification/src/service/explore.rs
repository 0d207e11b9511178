//! Explore feeds: subject listings, the popular top list and pagination.
use vstd::prelude::*;

use crate::models::{ExploreEntry, OlSubjectWork};
use crate::opds::feeds::PaginationPaths;
use crate::service::search::code_points;
use crate::text::char_views;
use crate::sorting::{key_ints, sort_by_keys, sorted_by_key};
use crate::state::ExploreSubject;
use crate::text::{
    dec_int, dec_nat, i64_to_string, owned, push_chars, push_str, str_chars, u64_to_dec,
};

verus! {

broadcast use vstd::seq_lib::group_seq_properties;

/// Largest number of entries in the popular top list.
pub const TOP_LIMIT: usize = 250;

// ---------------------------------------------------------------------------
// Pagination
// ---------------------------------------------------------------------------
/// Number of pages needed for `total` items at `size` per page (at least 1).
pub open spec fn total_pages(total: nat, size: nat) -> nat {
    let s = if size < 1 {
        1
    } else {
        size
    };
    let n = if total % s == 0 {
        total / s
    } else {
        total / s + 1
    };
    if n < 1 {
        1
    } else {
        n
    }
}

/// The page actually shown when `page` is requested.
pub open spec fn current_page(page: nat, size: nat, total: nat) -> nat {
    let p = if page < 1 {
        1
    } else {
        page
    };
    if p < total_pages(total, size) {
        p
    } else {
        total_pages(total, size)
    }
}

/// The path of page `target` of a feed at `base`.
pub open spec fn page_path(base: Seq<char>, target: nat) -> Seq<char> {
    if target <= 1 {
        base
    } else {
        base + "?page="@ + dec_nat(target)
    }
}

/// The path of page `target` of a feed at `base`.
fn page_path_exec(base: &str, target: usize) -> (r: String)
    ensures
        r@ == page_path(base@, target as nat),
{
    if target <= 1 {
        owned(base)
    } else {
        let mut r = owned(base);
        push_str(&mut r, "?page=");
        let digits = u64_to_dec(target as u64);
        push_chars(&mut r, &digits);
        r
    }
}

/// The links of page `page` of an explore feed at `base_path` listing
/// `total_items` items, `page_size` per page. The page is clamped to the
/// pages that exist; there is a next link exactly when a later page exists
/// and a previous link exactly when the page is not the first.
pub fn explore_pagination_paths(
    base_path: &str,
    page: usize,
    page_size: usize,
    total_items: usize,
) -> (r: PaginationPaths)
    ensures
        r.page == current_page(page as nat, page_size as nat, total_items as nat),
        1 <= r.page <= total_pages(total_items as nat, page_size as nat),
        r.page_size == page_size,
        r.total_items == total_items,
        r.self_href@ == page_path(base_path@, r.page as nat),
        r.next_href is Some <==> r.page < total_pages(total_items as nat, page_size as nat),
        r.next_href matches Some(n) ==> n@ == page_path(base_path@, (r.page + 1) as nat),
        r.previous_href is Some <==> r.page > 1,
        r.previous_href matches Some(p) ==> p@ == page_path(base_path@, (r.page - 1) as nat),
{
    let p = if page < 1 {
        1
    } else {
        page
    };
    let size = if page_size < 1 {
        1
    } else {
        page_size
    };
    let pages_exact = total_items / size;
    proof {
        if total_items % size != 0 {
            assert(size >= 2);
            assert(total_items / size < usize::MAX) by (nonlinear_arith)
                requires
                    size >= 2,
                    total_items <= usize::MAX,
            ;
        }
    }
    let pages = if total_items % size == 0 {
        pages_exact
    } else {
        pages_exact + 1
    };
    let pages = if pages < 1 {
        1
    } else {
        pages
    };
    let current = if p < pages {
        p
    } else {
        pages
    };
    let next_href = if current < pages {
        Some(page_path_exec(base_path, current + 1))
    } else {
        None
    };
    let previous_href = if current > 1 {
        Some(page_path_exec(base_path, current - 1))
    } else {
        None
    };
    PaginationPaths {
        self_href: page_path_exec(base_path, current),
        next_href,
        previous_href,
        page: current,
        page_size,
        total_items,
    }
}

/// Index of the first entry of page `page` (pages below 1 count as the
/// first), saturating at `usize::MAX`.
pub open spec fn page_start(page: nat, size: nat) -> nat {
    let before = if page < 1 {
        0
    } else {
        (page - 1) as nat
    };
    let s = if size < 1 {
        1
    } else {
        size
    };
    if before * s > usize::MAX {
        usize::MAX as nat
    } else {
        before * s
    }
}

/// The entries of page `page`, `page_size` per page (at least one).
pub fn paginate_entries(entries: &Vec<ExploreEntry>, page: usize, page_size: usize) -> (r: Vec<
    ExploreEntry,
>)
    ensures
        ({
            let start = page_start(page as nat, page_size as nat);
            let size = if page_size < 1 {
                1
            } else {
                page_size as nat
            };
            let n = if start >= entries.len() {
                0
            } else if entries.len() - start < size {
                (entries.len() - start) as nat
            } else {
                size
            };
            &&& r.len() == n
            &&& forall|i: int| 0 <= i < n ==> #[trigger] r@[i].same(entries@[start + i])
        }),
{
    let size = if page_size < 1 {
        1
    } else {
        page_size
    };
    let before = if page < 1 {
        0
    } else {
        page - 1
    };
    let start = match before.checked_mul(size) {
        Some(s) => s,
        None => usize::MAX,
    };
    assert(start == page_start(page as nat, page_size as nat));
    let mut r: Vec<ExploreEntry> = Vec::new();
    if start >= entries.len() {
        return r;
    }
    let n = if entries.len() - start < size {
        entries.len() - start
    } else {
        size
    };
    let mut i: usize = 0;
    while i < n
        invariant
            start + n <= entries.len(),
            i <= n,
            r.len() == i,
            forall|j: int| 0 <= j < i ==> #[trigger] r@[j].same(entries@[start + j]),
        decreases n - i,
    {
        let e = entries[start + i].copy();
        let ghost old_r = r@;
        r.push(e);
        proof {
            assert forall|j: int| 0 <= j < i + 1 implies #[trigger] r@[j].same(
                entries@[start + j],
            ) by {
                if j < i {
                    assert(r@[j] == old_r[j]);
                }
            }
        }
        i = i + 1;
    }
    r
}

// ---------------------------------------------------------------------------
// Subject listings
// ---------------------------------------------------------------------------
/// The explore entry for a work of a subject listing.
pub open spec fn spec_work_entry(work: OlSubjectWork, metadata_base_url: Seq<char>) -> (
    Seq<char>,
    Seq<char>,
    Seq<char>,
    Seq<char>,
    Option<Seq<char>>,
    Seq<char>,
    Seq<char>,
    int,
) {
    let author = if work.authors@.len() > 0 {
        work.authors@[0].name@
    } else {
        "Unknown Author"@
    };
    let editions = match work.edition_count {
        Some(n) => n as int,
        None => 0,
    };
    (
        "urn:openlibrary:"@ + trim_start_char(work.key@, '/'),
        work.title@,
        author,
        "Open Library editions: "@ + dec_int(editions),
        match work.cover_id {
            Some(id) => Some("https://covers.openlibrary.org/b/id/"@ + dec_int(id as int) + "-M.jpg"@),
            None => None,
        },
        work.title@ + " "@ + author,
        metadata_base_url + work.key@,
        editions,
    )
}

/// `s` without any leading `c`.
pub open spec fn trim_start_char(s: Seq<char>, c: char) -> Seq<char>
    decreases s.len(),
{
    if s.len() > 0 && s[0] == c {
        trim_start_char(s.drop_first(), c)
    } else {
        s
    }
}

/// `s` without any leading `c`.
fn trim_start_char_exec(s: &str, c: char) -> (r: Vec<char>)
    ensures
        r@ == trim_start_char(s@, c),
{
    let v = str_chars(s);
    let mut a: usize = 0;
    while a < v.len() && v[a] == c
        invariant
            a <= v.len(),
            trim_start_char(v@, c) == trim_start_char(v@.skip(a as int), c),
        decreases v.len() - a,
    {
        proof {
            assert(v@.skip(a as int).drop_first() =~= v@.skip(a + 1));
        }
        a = a + 1;
    }
    let r = crate::text::slice_chars(&v, a, v.len());
    assert(r@ =~= v@.skip(a as int));
    r
}

/// `e` is the explore entry of `work`.
pub open spec fn work_entry_matches(e: ExploreEntry, work: OlSubjectWork, metadata_base_url: Seq<char>) -> bool {
    let s = spec_work_entry(work, metadata_base_url);
    &&& e.id@ == s.0
    &&& e.title@ == s.1
    &&& e.author@ == s.2
    &&& e.summary@ == s.3
    &&& (match e.cover_url {
        Some(u) => s.4 == Some(u@),
        None => s.4 is None,
    })
    &&& e.search_query@ == s.5
    &&& e.alternate_url@ == s.6
    &&& e.popularity == s.7
    &&& e.first_publish_year == work.first_publish_year
    &&& e.subjects@ == match work.subject {
        Some(v) => v@,
        None => Seq::empty(),
    }
}

/// The explore entry for a work of an Open Library subject listing: its
/// first author (or "Unknown Author"), its medium cover, and its edition
/// count as popularity.
pub fn subject_work_to_explore_entry(work: OlSubjectWork, metadata_base_url: &str) -> (e:
    ExploreEntry)
    ensures
        work_entry_matches(e, work, metadata_base_url@),
{
    let author = if work.authors.len() > 0 {
        work.authors[0].name.clone()
    } else {
        owned("Unknown Author")
    };
    let cover_url = match work.cover_id {
        Some(id) => {
            let mut u = owned("https://covers.openlibrary.org/b/id/");
            let digits = i64_to_string(id);
            push_str(&mut u, digits.as_str());
            push_str(&mut u, "-M.jpg");
            Some(u)
        },
        None => None,
    };
    let edition_count = match work.edition_count {
        Some(n) => n,
        None => 0,
    };
    let mut search_query = work.title.clone();
    push_str(&mut search_query, " ");
    push_str(&mut search_query, author.as_str());
    let mut alternate_url = owned(metadata_base_url);
    push_str(&mut alternate_url, work.key.as_str());
    let mut id = owned("urn:openlibrary:");
    let key_tail = trim_start_char_exec(work.key.as_str(), '/');
    push_chars(&mut id, &key_tail);
    let mut summary = owned("Open Library editions: ");
    let count = i64_to_string(edition_count);
    push_str(&mut summary, count.as_str());
    let subjects = match work.subject {
        Some(v) => v,
        None => Vec::new(),
    };
    ExploreEntry {
        id,
        title: work.title,
        author,
        summary,
        cover_url,
        search_query,
        alternate_url,
        popularity: edition_count,
        first_publish_year: work.first_publish_year,
        subjects,
    }
}

/// The display name of the subject with slug `subject`; when a slug is
/// configured twice, the later entry names it.
pub open spec fn spec_subject_name(subjects: Seq<ExploreSubject>, slug: Seq<char>) -> Option<
    Seq<char>,
>
    decreases subjects.len(),
{
    if subjects.len() == 0 {
        None
    } else if subjects.last().slug@ == slug {
        Some(subjects.last().name@)
    } else {
        spec_subject_name(subjects.drop_last(), slug)
    }
}

/// Looking a slug up among the configured subjects finds a name exactly
/// when some subject has that slug, and the name is that of the last subject
/// with it (a later entry for a slug replaces an earlier one).
pub proof fn lemma_subject_lookup_finds_configured(subjects: Seq<ExploreSubject>, slug: Seq<char>)
    ensures
        spec_subject_name(subjects, slug) is Some <==> exists|i: int|
            0 <= i < subjects.len() && (#[trigger] subjects[i]).slug@ == slug,
        spec_subject_name(subjects, slug) matches Some(n) ==> exists|i: int|
            0 <= i < subjects.len() && (#[trigger] subjects[i]).slug@ == slug && subjects[i].name@
                == n && forall|j: int| i < j < subjects.len() ==> (#[trigger] subjects[j]).slug@
                != slug,
    decreases subjects.len(),
{
    if subjects.len() > 0 {
        let d = subjects.drop_last();
        let last = subjects.len() - 1;
        lemma_subject_lookup_finds_configured(d, slug);
        if subjects[last].slug@ == slug {
            assert(subjects[last].slug@ == slug);
        } else {
            if exists|i: int| 0 <= i < subjects.len() && (#[trigger] subjects[i]).slug@ == slug {
                let i = choose|i: int| 0 <= i < subjects.len() && (#[trigger] subjects[i]).slug@ == slug;
                assert(d[i].slug@ == slug);
            }
            if exists|i: int| 0 <= i < d.len() && (#[trigger] d[i]).slug@ == slug {
                let i = choose|i: int| 0 <= i < d.len() && (#[trigger] d[i]).slug@ == slug;
                assert(subjects[i] == d[i]);
            }
            match spec_subject_name(d, slug) {
                Some(n) => {
                    let i = choose|i: int|
                        0 <= i < d.len() && (#[trigger] d[i]).slug@ == slug && d[i].name@ == n
                            && forall|j: int| i < j < d.len() ==> (#[trigger] d[j]).slug@ != slug;
                    assert(subjects[i] == d[i]);
                    assert forall|j: int| i < j < subjects.len() implies (
                    #[trigger] subjects[j]).slug@ != slug by {
                        if j < d.len() {
                            assert(subjects[j] == d[j]);
                        }
                    }
                },
                None => {},
            }
        }
    }
}

/// The display name of the configured subject with slug `subject`: found
/// exactly when some configured subject has that slug, and then the name of
/// the last one with it.
#[verifier::loop_isolation(false)]
pub fn explore_subject_name(subjects: &Vec<ExploreSubject>, subject: &str) -> (r: Option<String>)
    ensures
        r matches Some(n) ==> spec_subject_name(subjects@, subject@) == Some(n@),
        r is None ==> spec_subject_name(subjects@, subject@) is None,
        r is Some <==> exists|i: int|
            0 <= i < subjects@.len() && (#[trigger] subjects@[i]).slug@ == subject@,
        r matches Some(n) ==> exists|i: int|
            0 <= i < subjects@.len() && (#[trigger] subjects@[i]).slug@ == subject@
                && subjects@[i].name@ == n@ && forall|j: int|
                i < j < subjects@.len() ==> (#[trigger] subjects@[j]).slug@ != subject@,
{
    proof {
        lemma_subject_lookup_finds_configured(subjects@, subject@);
    }
    let mut i: usize = subjects.len();
    while i > 0
        invariant
            i <= subjects.len(),
            spec_subject_name(subjects@, subject@) == spec_subject_name(
                subjects@.take(i as int),
                subject@,
            ),
        decreases i,
    {
        proof {
            assert(subjects@.take(i as int).drop_last() =~= subjects@.take(i - 1));
            assert(subjects@.take(i as int).last() == subjects@[i - 1]);
        }
        let slug = str_chars(subjects[i - 1].slug.as_str());
        let wanted = str_chars(subject);
        if crate::text::chars_eq(&slug, &wanted) {
            return Some(subjects[i - 1].name.clone());
        }
        i = i - 1;
    }
    None
}

// ---------------------------------------------------------------------------
// Popular top list
// ---------------------------------------------------------------------------
/// All entries of the listings, in order.
pub open spec fn flatten_entries(rs: Seq<Seq<ExploreEntry>>) -> Seq<ExploreEntry>
    decreases rs.len(),
{
    if rs.len() == 0 {
        Seq::empty()
    } else {
        flatten_entries(rs.drop_last()) + rs.last()
    }
}

/// The entries whose id does not occur earlier, in their order.
pub open spec fn dedup_id(s: Seq<ExploreEntry>) -> Seq<ExploreEntry>
    decreases s.len(),
{
    if s.len() == 0 {
        Seq::empty()
    } else if exists|j: int| 0 <= j < s.len() - 1 && s[j].id@ == s.last().id@ {
        dedup_id(s.drop_last())
    } else {
        dedup_id(s.drop_last()).push(s.last())
    }
}

/// The order of the top list: most editions first, then by title.
pub open spec fn explore_sort_key(e: ExploreEntry) -> Seq<int> {
    seq![-(e.popularity as int)] + code_points(e.title@)
}

/// The candidates of the top list: the entries of all listings, each work
/// (by id) taken from the first listing that holds it.
pub open spec fn top_candidates(rs: Seq<Vec<ExploreEntry>>) -> Seq<ExploreEntry> {
    dedup_id(flatten_entries(rs.map_values(|v: Vec<ExploreEntry>| v@)))
}

proof fn lemma_flatten_front(rs: Seq<Seq<ExploreEntry>>)
    requires
        rs.len() > 0,
    ensures
        flatten_entries(rs) == rs[0] + flatten_entries(rs.drop_first()),
    decreases rs.len(),
{
    if rs.len() == 1 {
        assert(rs.drop_first() =~= Seq::<Seq<ExploreEntry>>::empty());
        assert(rs.drop_last() =~= Seq::<Seq<ExploreEntry>>::empty());
        assert(flatten_entries(Seq::<Seq<ExploreEntry>>::empty()) == Seq::<ExploreEntry>::empty());
        assert(rs.last() == rs[0]);
        assert(Seq::<ExploreEntry>::empty() + rs[0] =~= rs[0]);
        assert(flatten_entries(rs) =~= rs[0]);
        assert(rs[0] + Seq::<ExploreEntry>::empty() =~= rs[0]);
    } else {
        lemma_flatten_front(rs.drop_last());
        assert(rs.drop_last().drop_first() =~= rs.drop_first().drop_last());
        assert(rs.drop_first().last() == rs.last());
        assert(rs.drop_last()[0] == rs[0]);
        assert(flatten_entries(rs) =~= rs[0] + flatten_entries(rs.drop_first()));
    }
}

/// The popular top list from subject listings: every work once (taken
/// from the first listing holding it), ordered by edition count (most
/// first) and then title, at most `TOP_LIMIT` of them. Entries that compare
/// equal may come in any order.
pub fn merge_top_entries(results: Vec<Vec<ExploreEntry>>) -> (r: Vec<ExploreEntry>)
    ensures
        ({
            let c = top_candidates(results@);
            &&& r.len() == if c.len() < TOP_LIMIT {
                c.len()
            } else {
                TOP_LIMIT as nat
            }
            &&& exists|p: Seq<ExploreEntry>|
                #![trigger p.to_multiset()]
                p.to_multiset() == c.to_multiset() && sorted_by_key(p, |e: ExploreEntry| explore_sort_key(e))
                    && r@ == p.take(r.len() as int)
        }),
{
    let ghost views = results@.map_values(|v: Vec<ExploreEntry>| v@);
    let mut results = results;
    let mut flat: Vec<ExploreEntry> = Vec::new();
    while results.len() > 0
        invariant
            flat@ + flatten_entries(results@.map_values(|v: Vec<ExploreEntry>| v@)) == flatten_entries(views),
        decreases results.len(),
    {
        let ghost before = results@.map_values(|v: Vec<ExploreEntry>| v@);
        let mut v = results.remove(0);
        proof {
            lemma_flatten_front(before);
            assert(results@.map_values(|v: Vec<ExploreEntry>| v@) =~= before.drop_first());
        }
        let ghost v0 = v@;
        let ghost f0 = flat@;
        while v.len() > 0
            invariant
                f0 + v0 == flat@ + v@,
            decreases v.len(),
        {
            let ghost vb = v@;
            let e = v.remove(0);
            flat.push(e);
            assert(flat@ + v@ =~= f0 + v0);
        }
        assert(flat@ =~= f0 + v0);
    }
    proof {
        assert(results@.map_values(|v: Vec<ExploreEntry>| v@) =~= Seq::<Seq<ExploreEntry>>::empty());
        assert(flat@ =~= flatten_entries(views));
    }
    let ghost all = flat@;
    let flat_len = flat.len();
    assert(all.len() == flat_len);
    let mut seen: Vec<Vec<char>> = Vec::new();
    let mut unique: Vec<ExploreEntry> = Vec::new();
    let mut processed: usize = 0;
    let mut rest = flat;
    while rest.len() > 0
        invariant
            processed + rest.len() == all.len(),
            all.len() <= usize::MAX,
            rest@ == all.skip(processed as int),
            unique@ == dedup_id(all.take(processed as int)),
            forall|m: Seq<char>|
                (exists|j: int| 0 <= j < processed && all[j].id@ == m) <==> char_views(seen@).contains(m),
        decreases rest.len(),
    {
        let e = rest.remove(0);
        let id = str_chars(e.id.as_str());
        let mut found = false;
        let mut k: usize = 0;
        while k < seen.len()
            invariant
                k <= seen.len(),
                found <==> exists|j: int| 0 <= j < k && seen@[j]@ == id@,
            decreases seen.len() - k,
        {
            if crate::text::chars_eq(&seen[k], &id) {
                found = true;
            }
            k = k + 1;
        }
        let ghost sv = char_views(seen@);
        proof {
            assert(e == all[processed as int]);
            let t = all.take(processed + 1);
            assert(t.drop_last() =~= all.take(processed as int));
            assert(t.last() == e);
            assert((exists|j: int| 0 <= j < t.len() - 1 && t[j].id@ == t.last().id@) <==> found) by {
                if found {
                    let j = choose|j: int| 0 <= j < k && seen@[j]@ == id@;
                    assert(sv[j] == id@);
                    assert(sv.contains(id@));
                    assert(exists|jj: int| 0 <= jj < processed && all[jj].id@ == id@);
                    let jj = choose|jj: int| 0 <= jj < processed && all[jj].id@ == id@;
                    assert(t[jj] == all[jj]);
                }
                if exists|j: int| 0 <= j < t.len() - 1 && t[j].id@ == t.last().id@ {
                    let j = choose|j: int| 0 <= j < t.len() - 1 && t[j].id@ == t.last().id@;
                    assert(all[j] == t[j]);
                    assert(sv.contains(id@));
                    let q = choose|q: int| 0 <= q < seen.len() && sv[q] == id@;
                    assert(seen@[q]@ == id@);
                }
            }
        }
        if !found {
            unique.push(e);
        }
        seen.push(id);
        proof {
            let sv2 = char_views(seen@);
            assert(sv2 =~= sv.push(id@));
            assert forall|m: Seq<char>|
                (exists|j: int| 0 <= j < processed + 1 && all[j].id@ == m) <==> sv2.contains(m) by {
                if exists|j: int| 0 <= j < processed + 1 && all[j].id@ == m {
                    let j = choose|j: int| 0 <= j < processed + 1 && all[j].id@ == m;
                    if j < processed {
                        assert(sv.contains(m));
                        let q = choose|q: int| 0 <= q < sv.len() && sv[q] == m;
                        assert(sv2[q] == m);
                    } else {
                        assert(sv2[sv.len() as int] == m);
                    }
                }
                if sv2.contains(m) {
                    let q = choose|q: int| 0 <= q < sv2.len() && sv2[q] == m;
                    if q < sv.len() {
                        assert(sv[q] == m);
                        assert(sv.contains(m));
                    }
                }
            }
            assert(rest@ =~= all.skip(processed + 1));
        }
        processed = processed + 1;
    }
    proof {
        assert(all.take(processed as int) =~= all);
    }
    let ghost key = |e: ExploreEntry| explore_sort_key(e);
    let mut keys: Vec<Vec<i128>> = Vec::new();
    let mut i: usize = 0;
    while i < unique.len()
        invariant
            i <= unique.len(),
            keys.len() == i,
            key == (|e: ExploreEntry| explore_sort_key(e)),
            forall|j: int| 0 <= j < i ==> key_ints(#[trigger] keys@[j]@) == key(unique@[j]),
        decreases unique.len() - i,
    {
        let title = str_chars(unique[i].title.as_str());
        let mut k: Vec<i128> = Vec::new();
        k.push(-(unique[i].popularity as i128));
        let mut t: usize = 0;
        while t < title.len()
            invariant
                t <= title.len(),
                i < unique.len(),
                title@ == unique@[i as int].title@,
                k@.len() == 1 + t,
                key_ints(k@) == explore_sort_key(unique@[i as int]).take(1 + t),
            decreases title.len() - t,
        {
            let ghost full = explore_sort_key(unique@[i as int]);
            assert(full.len() == 1 + title.len());
            assert(full[1 + t] == title@[t as int] as u32 as int);
            let ghost old_k = k@;
            k.push(title[t] as u32 as i128);
            t = t + 1;
            proof {
                assert forall|j: int| 0 <= j < 1 + t implies key_ints(k@)[j] == full.take(1 + t)[j] by {
                    if j < t {
                        assert(k@[j] == old_k[j]);
                        assert(key_ints(old_k)[j] == full.take(t as int)[j]);
                    }
                }
                assert(key_ints(k@) =~= full.take(1 + t));
            }
        }
        assert(explore_sort_key(unique@[i as int]).take(1 + t) =~= explore_sort_key(
            unique@[i as int],
        ));
        let ghost old_keys = keys@;
        keys.push(k);
        proof {
            assert forall|j: int| 0 <= j < i + 1 implies key_ints(#[trigger] keys@[j]@) == key(
                unique@[j],
            ) by {
                if j < i {
                    assert(keys@[j] == old_keys[j]);
                }
            }
        }
        i = i + 1;
    }
    let ghost cands = unique@;
    let mut sorted = sort_by_keys(unique, keys, Ghost(key));
    let ghost p = sorted@;
    sorted.truncate(TOP_LIMIT);
    proof {
        assert(sorted@ =~= p.take(sorted.len() as int));
        assert(p.to_multiset() == cands.to_multiset());
    }
    sorted
}


/// The cache key of a subject listing fetched with a limit.
pub open spec fn explore_cache_key_text(subject: Seq<char>, limit: nat) -> Seq<char> {
    "subject:"@ + subject + ":limit:"@ + dec_nat(limit)
}

/// The cache key of a subject listing fetched with a limit.
pub fn explore_cache_key(subject: &str, limit: usize) -> (r: String)
    ensures
        r@ == explore_cache_key_text(subject@, limit as nat),
{
    let mut r = owned("subject:");
    push_str(&mut r, subject);
    push_str(&mut r, ":limit:");
    push_chars(&mut r, &u64_to_dec(limit as u64));
    r
}

/// The Open Library URL of a subject listing.
pub open spec fn subject_listing_url_text(base: Seq<char>, subject: Seq<char>, limit: nat) -> Seq<
    char,
> {
    base + "/subjects/"@ + subject + ".json?limit="@ + dec_nat(limit) + "&details=false"@
}

/// The Open Library URL of a subject listing.
pub fn subject_listing_url(metadata_base_url: &str, subject: &str, limit: usize) -> (r: String)
    ensures
        r@ == subject_listing_url_text(metadata_base_url@, subject@, limit as nat),
{
    let mut r = owned(metadata_base_url);
    push_str(&mut r, "/subjects/");
    push_str(&mut r, subject);
    push_str(&mut r, ".json?limit=");
    push_chars(&mut r, &u64_to_dec(limit as u64));
    push_str(&mut r, "&details=false");
    r
}

/// The explore entries of a subject listing's works, in order.
pub fn subject_entries(works: Vec<OlSubjectWork>, metadata_base_url: &str) -> (r: Vec<ExploreEntry>)
    ensures
        r@.len() == works@.len(),
        forall|i: int|
            0 <= i < works@.len() ==> work_entry_matches(#[trigger] r@[i], works@[i], metadata_base_url@),
{
    let ghost w0 = works@;
    let mut out: Vec<ExploreEntry> = Vec::new();
    for work in it: works.into_iter()
        invariant
            it.seq() == w0,
            out@.len() == it.index(),
            forall|i: int|
                0 <= i < out@.len() ==> work_entry_matches(#[trigger] out@[i], w0[i], metadata_base_url@),
    {
        out.push(subject_work_to_explore_entry(work, metadata_base_url));
    }
    out
}

/// How many works to fetch for a page of a subject feed: enough to fill the
/// pages up to this one, at least one page and at most the top-list size.
pub fn subject_fetch_limit(page: usize, page_size: usize) -> (r: usize)
    requires
        page_size <= TOP_LIMIT,
        page * page_size <= usize::MAX,
    ensures
        r == if page * page_size < page_size {
            page_size as int
        } else if page * page_size > TOP_LIMIT {
            TOP_LIMIT as int
        } else {
            page * page_size
        },
{
    let n = page * page_size;
    if n < page_size {
        page_size
    } else if n > TOP_LIMIT {
        TOP_LIMIT
    } else {
        n
    }
}

} // verus!

verus! {

proof fn lemma_dedup_id_distinct(s: Seq<ExploreEntry>)
    ensures
        forall|i: int, j: int|
            0 <= i < j < dedup_id(s).len() ==> dedup_id(s)[i].id@ != dedup_id(s)[j].id@,
        forall|k: int|
            0 <= k < dedup_id(s).len() ==> exists|j: int|
                0 <= j < s.len() && #[trigger] dedup_id(s)[k] == s[j],
    decreases s.len(),
{
    if s.len() > 0 {
        let d = s.drop_last();
        lemma_dedup_id_distinct(d);
        let prev = dedup_id(d);
        assert forall|k: int| 0 <= k < prev.len() implies exists|j: int|
            0 <= j < s.len() && #[trigger] prev[k] == s[j] by {
            let j = choose|j: int| 0 <= j < d.len() && prev[k] == d[j];
            assert(s[j] == d[j]);
        }
        if !(exists|j: int| 0 <= j < s.len() - 1 && s[j].id@ == s.last().id@) {
            assert forall|k: int| 0 <= k < prev.len() implies prev[k].id@ != s.last().id@ by {
                let j = choose|j: int| 0 <= j < d.len() && prev[k] == d[j];
                assert(s[j] == d[j]);
            }
            assert(s[s.len() - 1] == s.last());
        }
    }
}

/// The popular top list never lists a work twice: any ordering of its
/// candidates, and any prefix of one, has entries with distinct ids.
pub proof fn lemma_top_list_ids_distinct(rs: Seq<Vec<ExploreEntry>>, p: Seq<ExploreEntry>, n: int)
    requires
        p.to_multiset() == top_candidates(rs).to_multiset(),
        0 <= n <= p.len(),
    ensures
        forall|i: int, j: int| 0 <= i < j < n ==> p.take(n)[i].id@ != p.take(n)[j].id@,
{
    let c = top_candidates(rs);
    lemma_dedup_id_distinct(flatten_entries(rs.map_values(|v: Vec<ExploreEntry>| v@)));
    assert forall|i: int, j: int| 0 <= i < j < n implies p.take(n)[i].id@ != p.take(n)[j].id@ by {
        assert(p.take(n)[i] == p[i]);
        assert(p.take(n)[j] == p[j]);
        if p[i].id@ == p[j].id@ {
            assert(p.contains(p[i]));
            assert(p.contains(p[j]));
            p.to_multiset_ensures();
            c.to_multiset_ensures();
            assert(p.to_multiset().count(p[i]) > 0);
            assert(c.to_multiset().count(p[i]) > 0);
            assert(c.contains(p[i]));
            assert(p.to_multiset().count(p[j]) > 0);
            assert(c.to_multiset().count(p[j]) > 0);
            assert(c.contains(p[j]));
            let a = choose|a: int| 0 <= a < c.len() && c[a] == p[i];
            let b = choose|b: int| 0 <= b < c.len() && c[b] == p[j];
            assert(a == b);
            assert(c.no_duplicates()) by {
                assert forall|x: int, y: int|
                    (0 <= x < c.len() && 0 <= y < c.len() && x != y) implies c[x] != c[y] by {
                    if x < y {
                        assert(c[x].id@ != c[y].id@);
                    } else {
                        assert(c[y].id@ != c[x].id@);
                    }
                }
            }
            c.lemma_multiset_has_no_duplicates();
            assert(p.no_duplicates()) by {
                assert forall|x: ExploreEntry| p.to_multiset().contains(x) implies p.to_multiset().count(
                    x,
                ) == 1 by {
                    assert(c.to_multiset().contains(x));
                }
                p.lemma_multiset_has_no_duplicates_conv();
            }
            assert(p[i] != p[j]);
        }
    }
}

} // verus!
