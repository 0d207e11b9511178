use shelfd::clock::{epoch_to_ymd_hms, format_rfc3339, now_rfc3339, rfc3339_of_reading, unix_now};
use shelfd::config::{
    archive_mirrors, comma_items, load_config, parse_explore_subjects, startup_summary, ConfigEnv, LogStyle, ServeArgs,
    DEFAULT_EXPLORE_SUBJECTS,
};
use shelfd::cover_gen::{escape_xml, initial_letter, svg_document};
use shelfd::db::{book_row, cached_book_from_row, cached_link_from_row, prune_cutoffs, subjects_column, LinkRow};
use shelfd::http::{cover_size_suffix, requested_page, subject_feed_id, subject_feed_path, subject_feed_title, top_feed_id, HealthPayload};
use shelfd::models::{BookEntry, CacheTtls, ExploreEntry, OlAuthorRef, OlSubjectWork};
use shelfd::numbers::{parse_i64, parse_u64, parse_usize};
use shelfd::service::explore::{
    explore_cache_key, explore_pagination_paths, explore_subject_name, merge_top_entries,
    paginate_entries, subject_entries, subject_fetch_limit, subject_listing_url,
    subject_work_to_explore_entry,
};
use shelfd::state::{archive_base_for_turn, ExploreSubject};

// Cover text -------------------------------------------------------------

#[test]
fn cover_gen_test_escape_xml() {
    assert_eq!(escape_xml("AT&T"), "AT&amp;T");
    assert_eq!(escape_xml("<tag>"), "&lt;tag&gt;");
    assert_eq!(escape_xml(r#"He said "hi""#), "He said &quot;hi&quot;");
}

#[test]
fn mod_test_escape_xml() {
    assert_eq!(escape_xml("AT&T"), "AT&amp;T");
    assert_eq!(escape_xml("<tag>"), "&lt;tag&gt;");
    assert_eq!(escape_xml(r#"He said "hi""#), "He said &quot;hi&quot;");
}

#[test]
fn escape_xml_handles_apostrophes_and_existing_entities() {
    assert_eq!(escape_xml("O'Brien &amp;"), "O&apos;Brien &amp;amp;");
    assert_eq!(escape_xml(""), "");
}

#[test]
fn initial_letter_uses_first_alphanumeric() {
    assert_eq!(initial_letter("  dune"), "D");
    assert_eq!(initial_letter("...42 things"), "4");
    assert_eq!(initial_letter("ß"), "SS");
    assert_eq!(initial_letter("?!"), "•");
}

#[test]
fn svg_document_wraps_defs_and_body() {
    assert_eq!(
        svg_document("<g/>", "<rect/>"),
        "<svg xmlns=\"http://www.w3.org/2000/svg\" xmlns:xlink=\"http://www.w3.org/1999/xlink\" viewBox=\"0 0 400 600\" width=\"400\" height=\"600\"><defs><g/></defs><rect/></svg>"
    );
}

// Configuration ----------------------------------------------------------

#[test]
fn load_config_uses_defaults() {
    let c = load_config(&ServeArgs::default(), &ConfigEnv::default()).unwrap();
    assert_eq!(c.database_url, "sqlite://opds.db?mode=rwc");
    assert_eq!(c.bind_addr, "0.0.0.0:7070");
    assert_eq!(c.archive_base, "http://localhost:8080");
    assert_eq!(c.archive_name, "Archive");
    assert_eq!(c.app_name, "shelfd");
    assert_eq!(c.metadata_base_url, "https://openlibrary.org");
    assert_eq!(c.flaresolverr_url, "http://localhost:8191");
    assert_eq!(c.flaresolverr_session, "opds-session");
    assert_eq!(c.public_base_url, None);
    assert_eq!(c.rust_log, "info,shelfd=debug,tower_http=warn");
    assert_eq!(c.log_style, LogStyle::Compact);
    assert_eq!(c.search_cache_ttl_secs, 1800);
    assert_eq!(c.book_cache_ttl_secs, 86400);
    assert_eq!(c.link_cache_ttl_secs, 86400);
    assert_eq!(c.link_failure_ttl_secs, 900);
    assert_eq!(c.explore_cache_ttl_secs, 21600);
    assert_eq!(c.cover_negative_ttl_secs, 86400);
    assert_eq!(c.search_result_limit, 12);
    assert_eq!(c.explore_page_size, 50);
    assert_eq!(c.cover_lookup_limit, 8);
    assert_eq!(c.inline_info_concurrency, 6);
    assert_eq!(c.cover_lookup_concurrency, 4);
    assert_eq!(c.search_prewarm_count, 3);
    assert_eq!(c.upstream_retry_attempts, 2);
    assert_eq!(c.upstream_retry_backoff_ms, 150);
    assert_eq!(c.cleanup_interval_secs, 3600);
    assert_eq!(c.explore_subjects_raw, DEFAULT_EXPLORE_SUBJECTS);
}

#[test]
fn load_config_prefers_arguments_then_environment() {
    let args = ServeArgs {
        app_name: Some("cli-name".to_owned()),
        log_style: Some(LogStyle::Compact),
        ..ServeArgs::default()
    };
    let env = ConfigEnv {
        app_name: Some("env-name".to_owned()),
        archive_name: Some("Env Archive".to_owned()),
        public_base_url: Some("https://books.example//".to_owned()),
        log_style: Some("PRETTY".to_owned()),
        search_result_limit: Some("+25".to_owned()),
        search_cache_ttl_secs: Some("-5".to_owned()),
        ..ConfigEnv::default()
    };
    let c = load_config(&args, &env).unwrap();
    assert_eq!(c.app_name, "cli-name");
    assert_eq!(c.archive_name, "Env Archive");
    assert_eq!(c.public_base_url.as_deref(), Some("https://books.example"));
    assert_eq!(c.log_style, LogStyle::Compact);
    assert_eq!(c.search_result_limit, 25);
    assert_eq!(c.search_cache_ttl_secs, -5);
    let c = load_config(&ServeArgs::default(), &env).unwrap();
    assert_eq!(c.log_style, LogStyle::Pretty);
}

#[test]
fn load_config_takes_the_archive_list_before_the_single_base() {
    let env = ConfigEnv {
        archive_urls: Some("https://a.example,https://b.example".to_owned()),
        ..ConfigEnv::default()
    };
    let c = load_config(&ServeArgs::default(), &env).unwrap();
    assert_eq!(c.archive_bases, vec!["https://a.example".to_owned(), "https://b.example".to_owned()]);
    let env = ConfigEnv { archive_base: Some("http://mirror".to_owned()), ..ConfigEnv::default() };
    let c = load_config(&ServeArgs::default(), &env).unwrap();
    assert_eq!(c.archive_bases, vec!["http://mirror".to_owned()]);
}

#[test]
fn load_config_drops_a_public_base_of_slashes() {
    let env = ConfigEnv { public_base_url: Some("///".to_owned()), ..ConfigEnv::default() };
    assert_eq!(load_config(&ServeArgs::default(), &env).unwrap().public_base_url, None);
}

#[test]
fn load_config_reports_the_first_bad_number() {
    let env = ConfigEnv {
        explore_page_size: Some("-1".to_owned()),
        cleanup_interval_secs: Some("soon".to_owned()),
        ..ConfigEnv::default()
    };
    let err = load_config(&ServeArgs::default(), &env).unwrap_err();
    assert_eq!(err.key, "EXPLORE_PAGE_SIZE");
    assert_eq!(err.value, "-1");
    assert_eq!(err.message(), "failed to parse env var EXPLORE_PAGE_SIZE=-1");
}

#[test]
fn parse_explore_subjects_names_known_and_plain_slugs() {
    let subjects = parse_explore_subjects(" world_war_ii , ,cats,science__fiction_,");
    assert_eq!(subjects.len(), 3);
    assert_eq!(subjects[0].slug, "world_war_ii");
    assert_eq!(subjects[0].name, "World War II");
    assert_eq!(subjects[1].slug, "cats");
    assert_eq!(subjects[1].name, "Cats");
    assert_eq!(subjects[2].slug, "science__fiction_");
    assert_eq!(subjects[2].name, "Science Fiction");
}

#[test]
fn parse_explore_subjects_falls_back_to_science_fiction() {
    let subjects = parse_explore_subjects(" , ");
    assert_eq!(subjects.len(), 1);
    assert_eq!(subjects[0].slug, "science_fiction");
    assert_eq!(subjects[0].name, "Science Fiction");
}

#[test]
fn default_subjects_are_all_listed() {
    let subjects = parse_explore_subjects(DEFAULT_EXPLORE_SUBJECTS);
    assert_eq!(subjects.len(), 76);
    assert_eq!(subjects[23].name, "Mystery");
    assert_eq!(subjects[56].name, "Self-Help");
}

#[test]
fn startup_summary_shows_loopback_for_wildcard_bind() {
    let c = load_config(&ServeArgs::default(), &ConfigEnv::default()).unwrap();
    let text = startup_summary(&c);
    assert!(text.starts_with("shelfd starting\n  bind: 0.0.0.0:7070\n  opds: http://127.0.0.1:7070/opds\n"));
    assert!(text.ends_with("\n  log style: Compact"));
    let args = ServeArgs { bind_addr: Some("10.0.0.2:80".to_owned()), ..ServeArgs::default() };
    let c = load_config(&args, &ConfigEnv::default()).unwrap();
    assert!(startup_summary(&c).contains("opds: http://10.0.0.2:80/opds"));
}

#[test]
fn numbers_parse_like_std() {
    assert_eq!(parse_i64("-9223372036854775808"), Some(i64::MIN));
    assert_eq!(parse_i64("9223372036854775808"), None);
    assert_eq!(parse_i64("+7"), Some(7));
    assert_eq!(parse_i64("-"), None);
    assert_eq!(parse_u64("18446744073709551615"), Some(u64::MAX));
    assert_eq!(parse_u64("18446744073709551616"), None);
    assert_eq!(parse_usize(" 1"), None);
    assert_eq!(parse_usize(""), None);
    assert_eq!(parse_usize("007"), Some(7));
}

// Clock ------------------------------------------------------------------

#[test]
fn epoch_conversion_matches_known_dates() {
    assert_eq!(epoch_to_ymd_hms(0), (1970, 1, 1, 0, 0, 0));
    assert_eq!(epoch_to_ymd_hms(951_782_400), (2000, 2, 29, 0, 0, 0));
    assert_eq!(epoch_to_ymd_hms(1_709_210_096), (2024, 2, 29, 12, 34, 56));
    assert_eq!(format_rfc3339(1_709_210_096), "2024-02-29T12:34:56Z");
    assert_eq!(format_rfc3339(0), "1970-01-01T00:00:00Z");
}

#[test]
fn clock_reads_current_time() {
    assert!(unix_now().unwrap() > 1_600_000_000);
    let stamp = now_rfc3339();
    assert_eq!(stamp.len(), 20);
    assert!(stamp.ends_with('Z'));
}

#[test]
fn a_clock_before_the_epoch_stamps_the_epoch() {
    assert_eq!(rfc3339_of_reading(None), "1970-01-01T00:00:00Z");
    assert_eq!(rfc3339_of_reading(Some(1_709_210_096)), "2024-02-29T12:34:56Z");
}

// Cache rows -------------------------------------------------------------

#[test]
fn cached_link_rows_fail_on_any_nonzero_flag() {
    let row = LinkRow { download_url: None, media_type: None, failed: 2, failure_reason: None, cached_at: 9 };
    assert!(cached_link_from_row(row).failed);
    let row = LinkRow { download_url: Some("u".to_owned()), media_type: None, failed: 0, failure_reason: None, cached_at: 9 };
    let link = cached_link_from_row(row);
    assert!(!link.failed);
    assert_eq!(link.download_url.as_deref(), Some("u"));
}

#[test]
fn book_rows_round_trip_subjects() {
    let book = BookEntry {
        md5: "m".to_owned(),
        title: "T".to_owned(),
        author: "A".to_owned(),
        downloads: 3,
        cover_url: None,
        download_media_type: Some("text/plain".to_owned()),
        cover_checked_at: Some(4),
        first_publish_year: None,
        language: Some("eng".to_owned()),
        subjects: vec!["Fantasy".to_owned(), "Quote \" mark".to_owned()],
        description: None,
    };
    let row = book_row(&book, 100);
    assert_eq!(row.cached_at, 100);
    assert_eq!(row.subjects_json.as_deref(), Some(r#"["Fantasy","Quote \" mark"]"#));
    let cached = cached_book_from_row(row);
    assert_eq!(cached.cached_at, 100);
    assert_eq!(cached.entry.subjects, book.subjects);
    assert_eq!(cached.entry.download_media_type.as_deref(), Some("text/plain"));
    assert_eq!(subjects_column(&vec![]), None);
}

#[test]
fn book_rows_ignore_malformed_subjects() {
    let mut row = book_row(
        &BookEntry {
            md5: "m".to_owned(),
            title: "T".to_owned(),
            author: "A".to_owned(),
            downloads: 0,
            cover_url: None,
            download_media_type: None,
            cover_checked_at: None,
            first_publish_year: None,
            language: None,
            subjects: vec![],
            description: None,
        },
        1,
    );
    row.subjects_json = Some("{not json".to_owned());
    assert!(cached_book_from_row(row).entry.subjects.is_empty());
}

#[test]
fn prune_cutoffs_subtract_each_ttl() {
    let ttls = CacheTtls { books_secs: 10, links_secs: 20, link_failures_secs: 30, searches_secs: 40, explore_secs: 50 };
    let c = prune_cutoffs(1000, &ttls);
    assert_eq!((c.books, c.links, c.link_failures, c.searches, c.explore_sources), (990, 980, 970, 960, 950));
}

// Requests ---------------------------------------------------------------

#[test]
fn cover_size_suffix_maps_names() {
    assert_eq!(cover_size_suffix(Some("small")), "S");
    assert_eq!(cover_size_suffix(Some("medium")), "M");
    assert_eq!(cover_size_suffix(Some("large")), "L");
    assert_eq!(cover_size_suffix(Some("huge")), "M");
    assert_eq!(cover_size_suffix(None), "M");
}

#[test]
fn requested_page_is_at_least_one() {
    assert_eq!(requested_page(None), 1);
    assert_eq!(requested_page(Some(0)), 1);
    assert_eq!(requested_page(Some(4)), 4);
}

#[test]
fn health_payload_reports_database_state() {
    assert_eq!(HealthPayload::ready(true).status, "ok");
    assert_eq!(HealthPayload::ready(false).status, "db_unavailable");
}

#[test]
fn explore_feed_names() {
    assert_eq!(subject_feed_title("Cats"), "Explore: Cats");
    assert_eq!(subject_feed_id("shelfd", "cats"), "urn:shelfd:explore:subject:cats");
    assert_eq!(subject_feed_path("cats"), "/opds/explore/subject/cats");
    assert_eq!(top_feed_id("shelfd"), "urn:shelfd:explore:top");
}

#[test]
fn archive_mirrors_rotate() {
    let bases = vec!["a".to_owned(), "b".to_owned(), "c".to_owned()];
    assert_eq!(archive_base_for_turn(&bases, 0), "a");
    assert_eq!(archive_base_for_turn(&bases, 4), "b");
    let single = vec!["only".to_owned()];
    assert_eq!(archive_base_for_turn(&single, 9), "only");
}

#[test]
fn successive_turns_use_each_mirror_once() {
    let bases = vec!["a".to_owned(), "b".to_owned(), "c".to_owned()];
    let picked: Vec<&str> = (5..8).map(|t| archive_base_for_turn(&bases, t).as_str()).collect();
    assert_eq!(picked, vec!["c", "a", "b"]);
}

// Explore ----------------------------------------------------------------

fn entry(id: &str, title: &str, popularity: i64) -> ExploreEntry {
    ExploreEntry {
        id: id.to_owned(),
        title: title.to_owned(),
        author: String::new(),
        summary: String::new(),
        cover_url: None,
        search_query: String::new(),
        alternate_url: String::new(),
        popularity,
        first_publish_year: None,
        subjects: vec![],
    }
}

#[test]
fn explore_pagination_clamps_and_links() {
    let p = explore_pagination_paths("/opds/explore/top", 9, 50, 120);
    assert_eq!(p.page, 3);
    assert_eq!(p.self_href, "/opds/explore/top?page=3");
    assert_eq!(p.next_href, None);
    assert_eq!(p.previous_href.as_deref(), Some("/opds/explore/top?page=2"));
    let p = explore_pagination_paths("/x", 0, 0, 0);
    assert_eq!(p.page, 1);
    assert_eq!(p.self_href, "/x");
    assert_eq!(p.next_href, None);
    assert_eq!(p.previous_href, None);
}

#[test]
fn paginate_entries_returns_the_requested_slice() {
    let all: Vec<_> = (0..5).map(|i| entry(&format!("e{i}"), "t", i)).collect();
    let page = paginate_entries(&all, 2, 2);
    assert_eq!(page.iter().map(|e| e.id.as_str()).collect::<Vec<_>>(), vec!["e2", "e3"]);
    assert_eq!(paginate_entries(&all, 3, 2).len(), 1);
    assert_eq!(paginate_entries(&all, 4, 2).len(), 0);
}

#[test]
fn merge_top_entries_dedups_and_orders_by_popularity_then_title() {
    let merged = merge_top_entries(vec![
        vec![entry("a", "Alpha", 5), entry("b", "Beta", 9)],
        vec![entry("a", "Alpha again", 100), entry("c", "Able", 5)],
    ]);
    assert_eq!(merged.iter().map(|e| e.id.as_str()).collect::<Vec<_>>(), vec!["b", "c", "a"]);
    assert_eq!(merged[2].title, "Alpha");
}

#[test]
fn merge_top_entries_keeps_at_most_the_top_list() {
    let many: Vec<_> = (0..300).map(|i| entry(&format!("id{i}"), "t", i)).collect();
    let merged = merge_top_entries(vec![many]);
    assert_eq!(merged.len(), 250);
    assert_eq!(merged[0].popularity, 299);
}

#[test]
fn subject_work_becomes_explore_entry() {
    let work = OlSubjectWork {
        key: "/works/OL45883W".to_owned(),
        title: "Dune".to_owned(),
        authors: vec![OlAuthorRef { name: "Frank Herbert".to_owned() }],
        cover_id: Some(11481354),
        edition_count: Some(120),
        subject: Some(vec!["Science Fiction".to_owned()]),
        first_publish_year: Some(1965),
    };
    let e = subject_work_to_explore_entry(work, "https://openlibrary.org");
    assert_eq!(e.id, "urn:openlibrary:works/OL45883W");
    assert_eq!(e.author, "Frank Herbert");
    assert_eq!(e.summary, "Open Library editions: 120");
    assert_eq!(e.cover_url.as_deref(), Some("https://covers.openlibrary.org/b/id/11481354-M.jpg"));
    assert_eq!(e.search_query, "Dune Frank Herbert");
    assert_eq!(e.alternate_url, "https://openlibrary.org/works/OL45883W");
    assert_eq!(e.popularity, 120);
    let bare = OlSubjectWork {
        key: "/works/OL1W".to_owned(),
        title: "X".to_owned(),
        authors: vec![],
        cover_id: None,
        edition_count: None,
        subject: None,
        first_publish_year: None,
    };
    let list = subject_entries(vec![bare], "https://openlibrary.org");
    assert_eq!(list.len(), 1);
    assert_eq!(list[0].author, "Unknown Author");
    assert_eq!(list[0].popularity, 0);
}

#[test]
fn explore_subject_lookup_and_urls() {
    let subjects = vec![ExploreSubject { slug: "cats".to_owned(), name: "Cats".to_owned() }];
    assert_eq!(explore_subject_name(&subjects, "cats").as_deref(), Some("Cats"));
    assert_eq!(explore_subject_name(&subjects, "dogs"), None);
    assert_eq!(explore_cache_key("cats", 100), "subject:cats:limit:100");
    assert_eq!(
        subject_listing_url("https://openlibrary.org", "cats", 100),
        "https://openlibrary.org/subjects/cats.json?limit=100&details=false"
    );
    assert_eq!(subject_fetch_limit(1, 50), 50);
    assert_eq!(subject_fetch_limit(3, 50), 150);
    assert_eq!(subject_fetch_limit(9, 50), 250);
    assert_eq!(subject_fetch_limit(0, 50), 50);
}

#[test]
fn archive_mirrors_come_from_the_url_list_or_the_base() {
    assert_eq!(
        archive_mirrors(Some(" https://a.example , ,https://b.example"), "http://base"),
        vec!["https://a.example".to_owned(), "https://b.example".to_owned()]
    );
    assert_eq!(archive_mirrors(Some(" , "), "http://base"), vec!["http://base".to_owned()]);
    assert_eq!(archive_mirrors(None, "http://base"), vec!["http://base".to_owned()]);
    assert_eq!(comma_items("a,,b ,"), vec!["a".to_owned(), "b".to_owned()]);
}
