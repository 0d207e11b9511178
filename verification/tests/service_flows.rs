use shelfd::models::{BookEntry, CachedLink, InlineInfo, OlDoc, OlEditionDoc, OlEditions, OlEnrichment};
use shelfd::scraper::RawEntry;
use shelfd::service::cover::{
    cover_begin, cover_labels, cover_step, direct_cover_url, needs_cover_enrichment,
    openlibrary_cover_url_for_size, CoverAction, CoverEvent, CoverPhase, CoverState,
};
use shelfd::service::download::{
    cached_link_outcome, infer_media_type_from_url, resolve_link_from_page, slow_download_url,
};
use shelfd::service::metadata::{
    apply_enrichment, cover_url_for_doc, enrichment_from_docs, metadata_next, metadata_queries,
    select_cover_url, MetadataNext,
};
use shelfd::service::retry::{
    after_failure, html_snippet, retry_attempts, retry_backoff, RetryStep, MAX_BACKOFF_MS,
};
use shelfd::service::search::{
    archive_search_path, dedup_raw_entries, downloads_from_inline_info, inline_info_url,
    normalize_query, prewarm_targets, search_cache_key, search_step, select_search_results,
    sort_books_for_query, SearchAction, SearchEvent, SearchPhase,
};

fn book(md5: &str, title: &str, author: &str, downloads: i64) -> BookEntry {
    BookEntry {
        md5: md5.to_owned(),
        title: title.to_owned(),
        author: author.to_owned(),
        downloads,
        cover_url: None,
        download_media_type: None,
        cover_checked_at: None,
        first_publish_year: None,
        language: None,
        subjects: Vec::new(),
        description: None,
    }
}

fn doc() -> OlDoc {
    OlDoc {
        cover_i: None,
        cover_edition_key: None,
        subject: None,
        first_publish_year: None,
        language: None,
        editions: None,
    }
}

fn raw(md5: &str, title: &str, author: &str) -> RawEntry {
    RawEntry { md5: md5.into(), title: title.into(), author: author.into() }
}

// Covers -----------------------------------------------------------------

#[test]
fn rewrites_cover_id_urls_to_requested_size() {
    assert_eq!(
        openlibrary_cover_url_for_size("https://covers.openlibrary.org/b/id/12345-M.jpg", "L")
            .as_deref(),
        Some("https://covers.openlibrary.org/b/id/12345-L.jpg?default=false")
    );
}

#[test]
fn rewrites_cover_olid_urls_to_requested_size() {
    assert_eq!(
        openlibrary_cover_url_for_size("https://covers.openlibrary.org/b/olid/OL123M-M.jpg", "S")
            .as_deref(),
        Some("https://covers.openlibrary.org/b/olid/OL123M-S.jpg?default=false")
    );
}

#[test]
fn cover_rewrite_rejects_other_hosts() {
    assert_eq!(openlibrary_cover_url_for_size("https://example.com/b/id/1-M.jpg", "L"), None);
}

#[test]
fn direct_cover_url_only_for_numeric_ids() {
    assert_eq!(
        direct_cover_url("8739161", "S").as_deref(),
        Some("https://covers.openlibrary.org/b/id/8739161-S.jpg?default=false")
    );
    assert_eq!(direct_cover_url("abc123", "S"), None);
}

#[test]
fn cover_labels_default_to_unknown() {
    assert_eq!(cover_labels(&None), ("Unknown".to_owned(), "Unknown".to_owned()));
    let b = Some(book("m", "Dune", "Herbert", 1));
    assert_eq!(cover_labels(&b), ("Dune".to_owned(), "Herbert".to_owned()));
}

#[test]
fn cover_enrichment_retried_after_negative_ttl() {
    assert!(needs_cover_enrichment(None, 100));
    assert!(needs_cover_enrichment(Some(100), 100));
    assert!(!needs_cover_enrichment(Some(101), 100));
}

// Downloads --------------------------------------------------------------

#[test]
fn infer_media_type_epub() {
    assert_eq!(infer_media_type_from_url("https://example.com/file.epub"), Some("application/epub+zip".to_owned()));
}

#[test]
fn infer_media_type_pdf() {
    assert_eq!(infer_media_type_from_url("https://example.com/file.pdf"), Some("application/pdf".to_owned()));
}

#[test]
fn infer_media_type_mobi() {
    assert_eq!(
        infer_media_type_from_url("https://example.com/file.mobi"),
        Some("application/x-mobipocket-ebook".to_owned())
    );
}

#[test]
fn infer_media_type_azw3() {
    assert_eq!(
        infer_media_type_from_url("https://example.com/file.azw3"),
        Some("application/vnd.amazon.ebook".to_owned())
    );
}

#[test]
fn infer_media_type_fb2() {
    assert_eq!(
        infer_media_type_from_url("https://example.com/file.fb2"),
        Some("application/x-fictionbook+xml".to_owned())
    );
}

#[test]
fn infer_media_type_djvu() {
    assert_eq!(infer_media_type_from_url("https://example.com/file.djvu"), Some("image/vnd.djvu".to_owned()));
}

#[test]
fn infer_media_type_djv() {
    assert_eq!(infer_media_type_from_url("https://example.com/file.djv"), Some("image/vnd.djvu".to_owned()));
}

#[test]
fn infer_media_type_txt() {
    assert_eq!(infer_media_type_from_url("https://example.com/file.txt"), Some("text/plain".to_owned()));
}

#[test]
fn infer_media_type_case_insensitive() {
    assert_eq!(infer_media_type_from_url("https://example.com/file.EPUB"), Some("application/epub+zip".to_owned()));
    assert_eq!(infer_media_type_from_url("https://example.com/file.Pdf"), Some("application/pdf".to_owned()));
}

#[test]
fn infer_media_type_with_query_params() {
    assert_eq!(
        infer_media_type_from_url("https://example.com/file.epub?token=abc"),
        Some("application/epub+zip".to_owned())
    );
}

#[test]
fn infer_media_type_unknown_extension() {
    assert_eq!(infer_media_type_from_url("https://example.com/file.xyz"), None);
}

#[test]
fn infer_media_type_no_extension() {
    assert_eq!(infer_media_type_from_url("https://example.com/file"), None);
}

#[test]
fn infer_media_type_empty_url() {
    assert_eq!(infer_media_type_from_url(""), None);
}

#[test]
fn cached_link_outcome_reports_failures_and_hits() {
    let failed = CachedLink {
        download_url: None,
        media_type: None,
        failed: true,
        failure_reason: Some("blocked".to_owned()),
        cached_at: 5,
    };
    assert_eq!(cached_link_outcome(failed), Err("blocked".to_owned()));
    let failed_quietly = CachedLink {
        download_url: None,
        media_type: None,
        failed: true,
        failure_reason: None,
        cached_at: 5,
    };
    assert_eq!(
        cached_link_outcome(failed_quietly),
        Err("cached download resolution failure".to_owned())
    );
    let hit = CachedLink {
        download_url: Some("https://x/f.pdf".to_owned()),
        media_type: Some("application/pdf".to_owned()),
        failed: false,
        failure_reason: None,
        cached_at: 5,
    };
    assert_eq!(cached_link_outcome(hit), Ok(Some("https://x/f.pdf".to_owned())));
}

#[test]
fn slow_download_url_names_the_first_mirror_page() {
    assert_eq!(slow_download_url("https://archive.example", "abc"), "https://archive.example/slow_download/abc/0/4");
}

#[test]
fn resolve_link_from_page_adds_media_type() {
    let page = r#"<span class="break-all"> https://x.example/Book.EPUB </span>"#;
    let link = resolve_link_from_page(page).unwrap();
    assert_eq!(link.download_url, "https://x.example/Book.EPUB");
    assert_eq!(link.media_type.as_deref(), Some("application/epub+zip"));
    assert!(resolve_link_from_page("<p>none</p>").is_err());
}

// Retry ------------------------------------------------------------------

#[test]
fn retry_backoff_attempt_0() {
    for _ in 0..10 {
        let result = retry_backoff(100, 0);
        assert!(result >= 50 && result <= 100);
    }
}

#[test]
fn retry_backoff_attempt_1() {
    let result = retry_backoff(100, 1);
    assert!(result >= 50 && result <= 100);
}

#[test]
fn retry_backoff_attempt_2() {
    let result = retry_backoff(100, 2);
    assert!(result >= 100 && result <= 200);
}

#[test]
fn retry_backoff_attempt_3() {
    let result = retry_backoff(100, 3);
    assert!(result >= 200 && result <= 400);
}

#[test]
fn retry_backoff_attempt_4() {
    let result = retry_backoff(100, 4);
    assert!(result >= 400 && result <= 800);
}

#[test]
fn retry_backoff_attempt_5() {
    let result = retry_backoff(100, 5);
    assert!(result >= 800 && result <= 1600);
}

#[test]
fn retry_backoff_attempt_6() {
    let result = retry_backoff(100, 6);
    assert!(result >= 1600 && result <= 3200);
}

#[test]
fn retry_backoff_attempt_7_capped_at_shift_5() {
    let result = retry_backoff(100, 7);
    assert!(result >= 1600 && result <= 3200);
}

#[test]
fn retry_backoff_attempt_100_capped() {
    let result = retry_backoff(100, 100);
    assert!(result >= 1600 && result <= 3200);
}

#[test]
fn retry_backoff_large_base_overflow_safe() {
    let result = retry_backoff(u64::MAX, 5);
    assert!(result > 0);
}

#[test]
fn retry_backoff_base_zero() {
    assert_eq!(retry_backoff(0, 5), 0);
}

#[test]
fn retry_backoff_respects_max_cap() {
    let result = retry_backoff(100_000, 0);
    assert!(result <= MAX_BACKOFF_MS);
}

#[test]
fn retry_backoff_grows_exponentially() {
    assert_eq!(retry_backoff(250, 1), 250);
    assert_eq!(retry_backoff(250, 2), 500);
    assert_eq!(retry_backoff(250, 3), 1000);
}

#[test]
fn retry_backoff_doubles_until_the_cap() {
    assert_eq!(retry_backoff(1000, 5), 16000);
    assert_eq!(retry_backoff(1000, 6), 30000);
    assert_eq!(retry_backoff(1000, 60), 30000);
}

#[test]
fn retry_schedule_gives_up_after_the_last_attempt() {
    let attempts = retry_attempts(0);
    assert_eq!(attempts, 1);
    assert_eq!(after_failure(1, attempts, 150), RetryStep::GiveUp);
    let attempts = retry_attempts(3);
    assert_eq!(after_failure(1, attempts, 150), RetryStep::Retry { wait_ms: 150 });
    assert_eq!(after_failure(2, attempts, 150), RetryStep::Retry { wait_ms: 300 });
    assert_eq!(after_failure(3, attempts, 150), RetryStep::GiveUp);
}

#[test]
fn log_sanitized_html_truncates_long_input() {
    let long_html = "a".repeat(3000);
    let snippet = html_snippet(&long_html);
    assert_eq!(snippet.len(), 2048);
}

#[test]
fn log_sanitized_html_short_input_not_truncated() {
    let short_html = "short";
    let snippet = html_snippet(short_html);
    assert_eq!(snippet, "short");
}

#[test]
fn log_sanitized_html_empty_input() {
    let snippet = html_snippet("");
    assert!(snippet.is_empty());
}

#[test]
fn html_snippet_counts_characters_not_bytes() {
    let text = "é".repeat(2100);
    let snippet = html_snippet(&text);
    assert_eq!(snippet.chars().count(), 2048);
}

// Search -----------------------------------------------------------------

#[test]
fn dedup_raw_entries_retains_first_entry_for_each_md5() {
    let entries = vec![
        raw("a", "First", "Author"),
        raw("b", "Second", "Writer"),
        raw("a", "Duplicate", "Other"),
        raw("c", "Third", "Author"),
    ];
    let deduped = dedup_raw_entries(entries);
    assert_eq!(deduped.len(), 3);
    assert_eq!(deduped[0].md5, "a");
    assert_eq!(deduped[1].md5, "b");
    assert_eq!(deduped[2].md5, "c");
    assert_eq!(deduped[0].title, "First");
}

#[test]
fn ranking_prefers_downloads_over_text_relevance() {
    let mut books = vec![
        book("1", "Completely Different Book", "Someone", 50_000),
        book("2", "Dune", "Frank Herbert", 500),
    ];
    sort_books_for_query("dune", &mut books);
    assert_eq!(books[0].md5, "1");
}

#[test]
fn ranking_uses_downloads_as_tiebreaker_for_similar_matches() {
    let mut books = vec![
        book("1", "Dune Messiah", "Frank Herbert", 1_000),
        book("2", "Dune Encyclopedia", "Willis McNelly", 5_000),
    ];
    sort_books_for_query("dune", &mut books);
    assert_eq!(books[0].md5, "2");
}

#[test]
fn ranking_prefers_exact_title_at_equal_downloads() {
    let mut books = vec![
        book("1", "Dune Messiah", "Frank Herbert", 10),
        book("2", "Dune", "Frank Herbert", 10),
        book("3", "Arrakis", "Someone", 10),
    ];
    sort_books_for_query("Dune", &mut books);
    assert_eq!(books[0].md5, "2");
    assert_eq!(books[2].md5, "3");
}

#[test]
fn normalize_query_squashes_whitespace() {
    assert_eq!(normalize_query("  dune \t  messiah\n"), "dune messiah");
    assert_eq!(normalize_query("   "), "");
}

#[test]
fn search_cache_key_marks_later_pages() {
    assert_eq!(search_cache_key("dune", 1), "dune");
    assert_eq!(search_cache_key("dune", 0), "dune");
    assert_eq!(search_cache_key("dune", 3), "dune|page:3");
}

#[test]
fn archive_search_path_encodes_query() {
    assert_eq!(archive_search_path("dune messiah", 2), "/search?q=dune%20messiah&page=2");
}

#[test]
fn select_search_results_truncates_then_dedups() {
    let raws = vec![raw("a", "A", ""), raw("a", "A2", ""), raw("b", "B", ""), raw("c", "C", "")];
    let (kept, has_more) = select_search_results(raws, 3);
    assert!(has_more);
    assert_eq!(kept.len(), 2);
    assert_eq!(kept[1].md5, "b");
    let (kept, has_more) = select_search_results(vec![raw("x", "X", "")], 3);
    assert!(!has_more);
    assert_eq!(kept.len(), 1);
}

#[test]
fn downloads_default_to_zero() {
    assert_eq!(downloads_from_inline_info(None), 0);
    assert_eq!(downloads_from_inline_info(Some(&InlineInfo { downloads_total: None })), 0);
    assert_eq!(downloads_from_inline_info(Some(&InlineInfo { downloads_total: Some(7) })), 7);
}

#[test]
fn inline_info_url_joins_base_and_hash() {
    assert_eq!(inline_info_url("https://a.example", "ff"), "https://a.example/dyn/md5/inline_info/ff");
}

#[test]
fn prewarm_targets_skip_duplicates_and_covered_books() {
    let mut covered = book("b", "B", "", 0);
    covered.cover_url = Some("https://c/1.jpg".to_owned());
    let books = vec![
        book("a", "A", "", 0),
        covered,
        book("a", "A again", "", 0),
        book("c", "C", "", 0),
        book("d", "D", "", 0),
    ];
    assert_eq!(prewarm_targets(&books, 4), vec!["a".to_owned(), "c".to_owned()]);
    assert_eq!(prewarm_targets(&books, 0), Vec::<String>::new());
}

// Metadata ---------------------------------------------------------------

#[test]
fn selects_first_work_level_cover() {
    let mut first = doc();
    first.cover_i = Some(12345);
    first.first_publish_year = Some(1965);
    let mut second = doc();
    second.cover_i = Some(99999);
    let docs = vec![first, second];
    assert_eq!(
        select_cover_url(&docs).as_deref(),
        Some("https://covers.openlibrary.org/b/id/12345-M.jpg")
    );
}

#[test]
fn falls_back_to_later_doc_with_cover() {
    let mut first = doc();
    first.first_publish_year = Some(1965);
    let mut second = doc();
    second.cover_i = Some(67890);
    let docs = vec![first, second];
    assert_eq!(
        select_cover_url(&docs).as_deref(),
        Some("https://covers.openlibrary.org/b/id/67890-M.jpg")
    );
}

#[test]
fn falls_back_to_edition_level_cover_data() {
    let mut first = doc();
    first.editions = Some(OlEditions {
        docs: vec![OlEditionDoc { key: Some("/books/OL123M".to_owned()), cover_i: Some(24680) }],
    });
    let docs = vec![first];
    assert_eq!(
        select_cover_url(&docs).as_deref(),
        Some("https://covers.openlibrary.org/b/id/24680-M.jpg")
    );
}

#[test]
fn falls_back_to_cover_edition_key() {
    let mut first = doc();
    first.cover_edition_key = Some("OL999M".to_owned());
    let docs = vec![first];
    assert_eq!(
        select_cover_url(&docs).as_deref(),
        Some("https://covers.openlibrary.org/b/olid/OL999M-M.jpg")
    );
}

#[test]
fn edition_key_cover_strips_books_prefix() {
    let mut d = doc();
    d.editions = Some(OlEditions {
        docs: vec![
            OlEditionDoc { key: None, cover_i: None },
            OlEditionDoc { key: Some("/books//books/OL5M".to_owned()), cover_i: None },
        ],
    });
    assert_eq!(
        cover_url_for_doc(&d).as_deref(),
        Some("https://covers.openlibrary.org/b/olid/OL5M-M.jpg")
    );
    assert_eq!(cover_url_for_doc(&doc()), None);
}

#[test]
fn enrichment_takes_first_work_details() {
    assert!(enrichment_from_docs(&vec![]).is_none());
    let mut first = doc();
    first.first_publish_year = Some(1965);
    first.language = Some(vec!["eng".to_owned(), "fre".to_owned()]);
    first.subject = Some((1..=7).map(|i| format!("s{i}")).collect());
    let mut second = doc();
    second.cover_i = Some(5);
    let e = enrichment_from_docs(&vec![first, second]).unwrap();
    assert_eq!(e.cover_url.as_deref(), Some("https://covers.openlibrary.org/b/id/5-M.jpg"));
    assert_eq!(e.first_publish_year, Some(1965));
    assert_eq!(e.language.as_deref(), Some("eng"));
    assert_eq!(e.subjects, vec!["s1", "s2", "s3", "s4", "s5"]);
}

#[test]
fn apply_enrichment_fills_only_missing_fields() {
    let mut b = book("m", "T", "A", 3);
    b.first_publish_year = Some(2000);
    b.cover_checked_at = Some(1);
    let found = OlEnrichment {
        cover_url: Some("https://covers.openlibrary.org/b/id/9-M.jpg".to_owned()),
        first_publish_year: Some(1999),
        language: Some("eng".to_owned()),
        subjects: vec!["x".to_owned()],
    };
    let u = apply_enrichment(b, &found, 77);
    assert_eq!(u.cover_url.as_deref(), Some("https://covers.openlibrary.org/b/id/9-M.jpg"));
    assert_eq!(u.cover_checked_at, Some(77));
    assert_eq!(u.first_publish_year, Some(2000));
    assert_eq!(u.language.as_deref(), Some("eng"));
    assert_eq!(u.subjects, vec!["x".to_owned()]);
    let none = apply_enrichment(u, &OlEnrichment::default(), 99);
    assert_eq!(none.cover_url, None);
    assert_eq!(none.cover_checked_at, Some(77));
}

#[test]
fn metadata_queries_try_full_then_first_author_then_title() {
    let b = book("m", "Dune Messiah", " Frank Herbert ; Someone", 0);
    let q = metadata_queries("https://openlibrary.org", &b, 0);
    assert_eq!(q.len(), 3);
    assert_eq!(q[0].author_label, " Frank Herbert ; Someone");
    assert_eq!(q[1].author_label, "Frank Herbert");
    assert_eq!(q[2].author_label, "");
    assert_eq!(
        q[1].url,
        "https://openlibrary.org/search.json?title=Dune%20Messiah&author=Frank%20Herbert&limit=1&fields=cover_i,cover_edition_key,subject,first_publish_year,language,editions,editions.key,editions.cover_i"
    );
    assert!(q[2].url.starts_with("https://openlibrary.org/search.json?title=Dune%20Messiah&limit=1&fields="));
}

#[test]
fn cover_resize_of_a_resized_url_matches_direct_resize() {
    let url = "http://covers.openlibrary.org/b/olid/OL7-A-M.jpg?x=1";
    let medium = openlibrary_cover_url_for_size(url, "M").unwrap();
    assert_eq!(medium, "https://covers.openlibrary.org/b/olid/OL7-A-M.jpg?default=false");
    assert_eq!(
        openlibrary_cover_url_for_size(&medium, "L"),
        openlibrary_cover_url_for_size(url, "L")
    );
}

#[test]
fn fold_text_string_lowercases_and_squashes() {
    assert_eq!(shelfd::service::search::fold_text_string("  The  DUNE\tSaga "), "the dune saga");
}

#[test]
fn normalize_query_is_stable() {
    let once = normalize_query(" \u{2003}dune\u{a0}\u{a0} messiah  ");
    assert_eq!(once, "dune messiah");
    assert_eq!(normalize_query(&once), once);
}

fn cover_book(cover_url: Option<&str>) -> BookEntry {
    BookEntry {
        md5: "abc".to_owned(),
        title: "Dune".to_owned(),
        author: "Frank Herbert".to_owned(),
        downloads: 1,
        cover_url: cover_url.map(|u| u.to_owned()),
        download_media_type: None,
        cover_checked_at: None,
        first_publish_year: None,
        language: None,
        subjects: Vec::new(),
        description: None,
    }
}

fn step(param: &str, s: &CoverState, ev: CoverEvent) -> (CoverState, CoverAction) {
    cover_step(param, "L", s, ev)
}

#[test]
fn cover_ids_are_fetched_directly_and_served_whatever_comes_back() {
    let (s, a) = step("12345", &cover_begin(), CoverEvent::Start);
    assert!(matches!(a, CoverAction::Fetch(ref u) if u == "https://covers.openlibrary.org/b/id/12345-L.jpg?default=false"));
    let (s, a) = step("12345", &s, CoverEvent::Fetched(false));
    assert!(matches!(a, CoverAction::Serve));
    assert_eq!(s.phase, CoverPhase::Done);
}

#[test]
fn a_cached_cover_is_remembered_resized_and_falls_back_when_the_download_fails() {
    let (s, a) = step("abc", &cover_begin(), CoverEvent::Start);
    assert!(matches!(a, CoverAction::LookupBook));
    let book = cover_book(Some("https://covers.openlibrary.org/b/id/9-S.jpg"));
    let (s, a) = step("abc", &s, CoverEvent::CachedBook(Some(book)));
    assert!(matches!(a, CoverAction::Remember(Some(ref u)) if u == "https://covers.openlibrary.org/b/id/9-S.jpg"));
    let (s, a) = step("abc", &s, CoverEvent::Remembered);
    assert!(matches!(a, CoverAction::Fetch(ref u) if u == "https://covers.openlibrary.org/b/id/9-L.jpg?default=false"));
    let (_, a) = step("abc", &s, CoverEvent::Fetched(false));
    assert!(matches!(a, CoverAction::Generate(ref t, ref au) if t == "Dune" && au == "Frank Herbert"));
    let (_, a) = step("abc", &s, CoverEvent::Fetched(true));
    assert!(matches!(a, CoverAction::Serve));
}

#[test]
fn a_remembered_missing_cover_is_generated_at_once() {
    let (s, _) = step("abc", &cover_begin(), CoverEvent::Start);
    let (s, a) = step("abc", &s, CoverEvent::CachedBook(None));
    assert!(matches!(a, CoverAction::LookupHot));
    let (_, a) = step("abc", &s, CoverEvent::Hot(Some(None)));
    assert!(matches!(a, CoverAction::Generate(ref t, ref au) if t == "Unknown" && au == "Unknown"));
    let (_, a) = step(
        "abc",
        &s,
        CoverEvent::Hot(Some(Some("https://covers.openlibrary.org/b/olid/OL1M-M.jpg".to_owned()))),
    );
    assert!(matches!(a, CoverAction::Fetch(ref u) if u == "https://covers.openlibrary.org/b/olid/OL1M-L.jpg?default=false"));
}

#[test]
fn a_cover_is_looked_up_only_when_the_last_lookup_is_stale() {
    let (s, _) = step("abc", &cover_begin(), CoverEvent::Start);
    let (s, _) = step("abc", &s, CoverEvent::CachedBook(Some(cover_book(None))));
    let (s, a) = step("abc", &s, CoverEvent::Hot(None));
    assert!(matches!(a, CoverAction::CheckEnrichment));
    let (_, a) = step("abc", &s, CoverEvent::CoverCheck(Some(Some(100)), 50));
    assert!(matches!(a, CoverAction::Generate(ref t, _) if t == "Dune"));
    let (e, a) = step("abc", &s, CoverEvent::CoverCheck(Some(Some(50)), 50));
    assert!(matches!(a, CoverAction::Enrich));
    let (_, a) = step("abc", &s, CoverEvent::CoverCheck(None, 50));
    assert!(matches!(a, CoverAction::Enrich));
    let (_, a) = step("abc", &e, CoverEvent::Enriched(None));
    assert!(matches!(a, CoverAction::Generate(ref t, _) if t == "Dune"));
    let (_, a) = step("abc", &e, CoverEvent::Enriched(Some("https://example.org/x.jpg".to_owned())));
    assert!(matches!(a, CoverAction::Generate(..)));
    let (_, a) = step("abc", &e, CoverEvent::Start);
    assert!(matches!(a, CoverAction::Stop));
}

#[test]
fn metadata_lookup_moves_to_the_next_query_until_one_finds_works() {
    assert!(matches!(metadata_next(3, 0, &None), MetadataNext::Query(1)));
    assert!(matches!(metadata_next(3, 1, &Some(Vec::new())), MetadataNext::Query(2)));
    match metadata_next(3, 2, &None) {
        MetadataNext::Done(e) => {
            assert!(e.cover_url.is_none() && e.first_publish_year.is_none() && e.subjects.is_empty())
        }
        MetadataNext::Query(_) => panic!("the last query ends the lookup"),
    }
    let found = OlDoc { cover_i: Some(7), first_publish_year: Some(1965), ..doc() };
    match metadata_next(3, 0, &Some(vec![found])) {
        MetadataNext::Done(e) => {
            assert_eq!(e.cover_url.as_deref(), Some("https://covers.openlibrary.org/b/id/7-M.jpg"));
            assert_eq!(e.first_publish_year, Some(1965));
        }
        MetadataNext::Query(_) => panic!("works end the lookup"),
    }
}

#[test]
fn a_fresh_cached_search_feed_is_served_without_searching() {
    let (p, a) = search_step(SearchPhase::Begin, SearchEvent::Start);
    assert!(matches!(a, SearchAction::LookupCache));
    let (p2, a) = search_step(p, SearchEvent::Cached(Some("<feed/>".to_owned())));
    assert!(matches!(a, SearchAction::Serve(ref x) if x == "<feed/>"));
    assert_eq!(p2, SearchPhase::Done);
    let (p, a) = search_step(p, SearchEvent::Cached(None));
    assert!(matches!(a, SearchAction::Claim));
    let (_, a) = search_step(p, SearchEvent::Claimed(true));
    assert!(matches!(a, SearchAction::Search));
}

#[test]
fn a_waiting_search_serves_the_leaders_feed_or_searches_itself() {
    let (p, _) = search_step(SearchPhase::AwaitClaim, SearchEvent::Claimed(false));
    assert_eq!(p, SearchPhase::AwaitRecheck);
    let (_, a) = search_step(p, SearchEvent::Cached(Some("<feed/>".to_owned())));
    assert!(matches!(a, SearchAction::Serve(_)));
    let (p, a) = search_step(p, SearchEvent::Cached(None));
    assert!(matches!(a, SearchAction::Claim));
    let (_, a) = search_step(p, SearchEvent::Claimed(true));
    assert!(matches!(a, SearchAction::Search));
    let (_, a) = search_step(p, SearchEvent::Claimed(false));
    assert!(matches!(a, SearchAction::Fail));
    let (_, a) = search_step(SearchPhase::Begin, SearchEvent::Claimed(true));
    assert!(matches!(a, SearchAction::Stop));
}

#[test]
fn normalized_queries_have_no_stray_whitespace() {
    let q = normalize_query("  dune \t\n  messiah  ");
    assert_eq!(q, "dune messiah");
    assert!(!q.starts_with(' ') && !q.ends_with(' ') && !q.contains("  "));
    assert_eq!(normalize_query(&q), q);
}
