//! Download links: the media type of a resolved download URL.
use vstd::prelude::*;

use crate::models::CachedLink;
use crate::scraper::{download_url_spec, parse_download_url, DownloadUrlNotFound};
use crate::text::{
    before_first, before_first_exec, ends_with, lowercase, owned, push_str, str_chars, to_lowercase,
};

verus! {

/// The media type implied by the extension of a lowercased URL path.
pub open spec fn media_type_for_path(path: Seq<char>) -> Option<Seq<char>> {
    if ".epub"@.is_suffix_of(path) {
        Some("application/epub+zip"@)
    } else if ".pdf"@.is_suffix_of(path) {
        Some("application/pdf"@)
    } else if ".mobi"@.is_suffix_of(path) {
        Some("application/x-mobipocket-ebook"@)
    } else if ".azw3"@.is_suffix_of(path) {
        Some("application/vnd.amazon.ebook"@)
    } else if ".fb2"@.is_suffix_of(path) {
        Some("application/x-fictionbook+xml"@)
    } else if ".djvu"@.is_suffix_of(path) || ".djv"@.is_suffix_of(path) {
        Some("image/vnd.djvu"@)
    } else if ".txt"@.is_suffix_of(path) {
        Some("text/plain"@)
    } else {
        None
    }
}

/// The media type of a lowercased URL: that of the part before any `?`.
pub open spec fn media_type_for_lowered_url(lowered: Seq<char>) -> Option<Seq<char>> {
    media_type_for_path(before_first(lowered, '?'))
}

/// Whether `path` ends with `ext`.
fn has_ext(path: &Vec<char>, ext: &str) -> (b: bool)
    ensures
        b == ext@.is_suffix_of(path@),
{
    let e = str_chars(ext);
    ends_with(path, &e)
}

/// The media type of an already lowercased URL, from the extension of its
/// path (the part before any `?`).
pub fn media_type_for_lowered(lowered: &str) -> (r: Option<String>)
    ensures
        r matches Some(v) ==> media_type_for_lowered_url(lowered@) == Some(v@),
        r is None ==> media_type_for_lowered_url(lowered@) is None,
{
    let chars = str_chars(lowered);
    let path = before_first_exec(&chars, '?');
    if has_ext(&path, ".epub") {
        Some("application/epub+zip".to_owned())
    } else if has_ext(&path, ".pdf") {
        Some("application/pdf".to_owned())
    } else if has_ext(&path, ".mobi") {
        Some("application/x-mobipocket-ebook".to_owned())
    } else if has_ext(&path, ".azw3") {
        Some("application/vnd.amazon.ebook".to_owned())
    } else if has_ext(&path, ".fb2") {
        Some("application/x-fictionbook+xml".to_owned())
    } else if has_ext(&path, ".djvu") || has_ext(&path, ".djv") {
        Some("image/vnd.djvu".to_owned())
    } else if has_ext(&path, ".txt") {
        Some("text/plain".to_owned())
    } else {
        None
    }
}

/// The media type of a download URL, from the extension of its path,
/// ignoring case.
pub fn infer_media_type_from_url(url: &str) -> (r: Option<String>)
    ensures
        r matches Some(v) ==> media_type_for_lowered_url(lowercase(url@)) == Some(v@),
        r is None ==> media_type_for_lowered_url(lowercase(url@)) is None,
{
    let lowered = to_lowercase(url);
    media_type_for_lowered(lowered.as_str())
}


/// What a cached link resolution answers: its URL (if it holds one) where
/// it succeeded, else its failure reason (or a generic one).
pub fn cached_link_outcome(cached: CachedLink) -> (r: Result<Option<String>, String>)
    ensures
        cached.failed ==> (r matches Err(reason) && reason@ == match cached.failure_reason {
            Some(f) => f@,
            None => "cached download resolution failure"@,
        }),
        !cached.failed ==> (r matches Ok(u) && u == cached.download_url),
{
    if cached.failed {
        match cached.failure_reason {
            Some(f) => Err(f),
            None => Err(owned("cached download resolution failure")),
        }
    } else {
        Ok(cached.download_url)
    }
}

/// The archive page that leads to a book's download link.
pub open spec fn slow_download_url_text(base: Seq<char>, md5: Seq<char>) -> Seq<char> {
    base + "/slow_download/"@ + md5 + "/0/4"@
}

/// The archive page that leads to a book's download link.
pub fn slow_download_url(archive_base: &str, md5: &str) -> (r: String)
    ensures
        r@ == slow_download_url_text(archive_base@, md5@),
{
    let mut r = owned(archive_base);
    push_str(&mut r, "/slow_download/");
    push_str(&mut r, md5);
    push_str(&mut r, "/0/4");
    r
}

/// A download link found on a download page, with its media type.
#[derive(Debug, Clone)]
pub struct ResolvedLink {
    pub download_url: String,
    pub media_type: Option<String>,
}

/// The download link of a download page and the media type its URL implies.
pub fn resolve_link_from_page(html: &str) -> (r: Result<ResolvedLink, DownloadUrlNotFound>)
    ensures
        r is Err <==> download_url_spec(html@) is None,
        r matches Ok(l) ==> Some(l.download_url@) == download_url_spec(html@) && (match l.media_type {
            Some(t) => media_type_for_lowered_url(lowercase(l.download_url@)) == Some(t@),
            None => media_type_for_lowered_url(lowercase(l.download_url@)) is None,
        }),
{
    match parse_download_url(html) {
        Ok(url) => {
            let media_type = infer_media_type_from_url(url.as_str());
            Ok(ResolvedLink { download_url: url, media_type })
        },
        Err(e) => Err(e),
    }
}

} // verus!

verus! {

/// The media type of a download URL ignores letter case: two URLs that are
/// the same once lowercased get the same media type.
pub proof fn lemma_media_type_ignores_case(a: Seq<char>, b: Seq<char>)
    requires
        lowercase(a) == lowercase(b),
    ensures
        media_type_for_lowered_url(lowercase(a)) == media_type_for_lowered_url(lowercase(b)),
{
}

} // verus!
