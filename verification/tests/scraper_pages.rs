use shelfd::scraper::{
    entries_from_links, entries_from_rows, first_http_url, has_search_error, parse_download_url,
    parse_search_results, AuthorLink, PageLink, ResultRow,
};

#[test]
fn parse_search_results_extracts_md5_title_and_author() {
    let html = r#"
        <html><body>
          <a class="js-vim-focus" href="/md5/abc123">Book One</a>
          <a href="/search?q=author1">Author One</a>
          <a class="js-vim-focus" href="/md5/def456">Book Two</a>
          <a href="/search?q=author2">Author Two</a>
        </body></html>
        "#;
    let entries = parse_search_results(html);
    assert_eq!(entries.len(), 2);
    assert_eq!(entries[0].md5, "abc123");
    assert_eq!(entries[0].title, "Book One");
    assert_eq!(entries[0].author, "Author One");
    assert_eq!(entries[1].md5, "def456");
    assert_eq!(entries[1].title, "Book Two");
    assert_eq!(entries[1].author, "Author Two");
}

#[test]
fn parse_download_url_extracts_first_break_all_span() {
    let html = r#"
        <html><body>
          <span class="break-all">https://example.com/download.epub</span>
        </body></html>
        "#;
    let url = parse_download_url(html).unwrap();
    assert_eq!(url, "https://example.com/download.epub");
}

#[test]
fn parse_download_url_falls_back_to_anchor_href() {
    let html = r#"
        <html><body>
          <a href="https://cdn.example.com/file.pdf">download</a>
        </body></html>
        "#;
    let url = parse_download_url(html).unwrap();
    assert_eq!(url, "https://cdn.example.com/file.pdf");
}

#[test]
fn parse_search_results_reads_rows_and_prefers_the_marked_author() {
    let html = r#"
        <div class="border-b">
          <a class="js-vim-focus" href="/md5/ ff00 ">  The Title  </a>
          <a href="/search?q=publisher">Some Publisher</a>
          <a href="/search?q=writer"><span class="icon mdi--user-edit"></span> The Writer </a>
        </div>
        <div class="border-b">
          <a class="js-vim-focus" href="/md5/   ">Blank Hash</a>
        </div>
        "#;
    let entries = parse_search_results(html);
    assert_eq!(entries.len(), 1);
    assert_eq!(entries[0].md5, "ff00");
    assert_eq!(entries[0].title, "The Title");
    assert_eq!(entries[0].author, "The Writer");
}

#[test]
fn parse_download_url_reports_a_page_without_a_link() {
    let err = parse_download_url("<html><body><p>nothing here</p></body></html>").unwrap_err();
    assert_eq!(err.message(), "download URL not found in slow_download page");
}

#[test]
fn parse_download_url_falls_back_to_text_url() {
    let html = "<html><body><p>Use http://mirror.example/f.djvu now</p></body></html>";
    assert_eq!(parse_download_url(html).unwrap(), "http://mirror.example/f.djvu");
}

#[test]
fn first_http_url_prefers_https_and_stops_at_quotes() {
    let text = "see http://a.example/x and 'https://b.example/y' here";
    assert_eq!(first_http_url(text).as_deref(), Some("https://b.example/y"));
    assert_eq!(first_http_url("no links"), None);
}

#[test]
fn has_search_error_detects_archive_message() {
    assert!(has_search_error("<p>Error during search.</p>"));
    assert!(!has_search_error("<p>Error during search</p>"));
}

#[test]
fn entries_from_rows_skips_rows_without_usable_links() {
    let rows = vec![
        ResultRow { title: None, authors: vec![] },
        ResultRow {
            title: Some(PageLink { href: Some("/books/x".to_owned()), text: "X".to_owned() }),
            authors: vec![],
        },
        ResultRow {
            title: Some(PageLink { href: Some("/md5/a1".to_owned()), text: " A ".to_owned() }),
            authors: vec![
                AuthorLink { text: " First ".to_owned(), has_user_icon: false },
                AuthorLink { text: "Second".to_owned(), has_user_icon: false },
            ],
        },
    ];
    let entries = entries_from_rows(&rows);
    assert_eq!(entries.len(), 1);
    assert_eq!(entries[0].md5, "a1");
    assert_eq!(entries[0].title, "A");
    assert_eq!(entries[0].author, "First");
}

#[test]
fn entries_from_links_pairs_authors_by_position() {
    let titles = vec![
        PageLink { href: Some("/md5/one".to_owned()), text: "One".to_owned() },
        PageLink { href: Some("/md5/two".to_owned()), text: "Two".to_owned() },
        PageLink { href: Some("/md5/three".to_owned()), text: "Three".to_owned() },
    ];
    let authors = vec![
        AuthorLink { text: "Plain A".to_owned(), has_user_icon: false },
        AuthorLink { text: "Marked B".to_owned(), has_user_icon: true },
    ];
    let entries = entries_from_links(&titles, &authors);
    assert_eq!(entries.len(), 3);
    assert_eq!(entries[0].author, "Marked B");
    assert_eq!(entries[1].author, "Marked B");
    assert_eq!(entries[2].author, "");
}
