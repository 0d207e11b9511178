//! Cover images: Open Library cover URLs at a requested size.
use vstd::prelude::*;

use crate::models::BookEntry;
use crate::opds::links::strip_http_scheme;
use crate::text::{
    before_first, before_first_exec, first_pos, last_pos, lemma_first_pos, lemma_last_pos, owned,
    push_chars, push_str,
    rfind_char, slice_chars, str_chars, strip_prefix, strip_prefix_exec,
};

verus! {

/// The Open Library cover URL for the same image at size `size`: the path
/// after `covers.openlibrary.org/`, without its query, up to its last `-`,
/// with `-{size}.jpg?default=false` in place of the rest.
pub open spec fn spec_cover_url_for_size(url: Seq<char>, size: Seq<char>) -> Option<Seq<char>> {
    match strip_http_scheme(url) {
        Some(rest) => match strip_prefix(rest, "covers.openlibrary.org/"@) {
            Some(path) => {
                let path = before_first(path, '?');
                match last_pos(path, '-') {
                    Some(i) => Some(
                        "https://covers.openlibrary.org/"@ + path.take(i) + "-"@ + size
                            + ".jpg?default=false"@,
                    ),
                    None => None,
                }
            },
            None => None,
        },
        None => None,
    }
}

/// `url` without its `http(s)://` scheme, as characters.
fn strip_scheme(url: &Vec<char>) -> (r: Option<Vec<char>>)
    ensures
        r matches Some(v) ==> strip_http_scheme(url@) == Some(v@),
        r is None ==> strip_http_scheme(url@) is None,
{
    let https = str_chars("https://");
    match strip_prefix_exec(url, &https) {
        Some(rest) => Some(rest),
        None => {
            let http = str_chars("http://");
            strip_prefix_exec(url, &http)
        },
    }
}

/// Rewrites an Open Library cover URL to request the image at size
/// `size_suffix` (`S`, `M` or `L`) without a placeholder.
pub fn openlibrary_cover_url_for_size(url: &str, size_suffix: &str) -> (r: Option<String>)
    ensures
        r matches Some(v) ==> spec_cover_url_for_size(url@, size_suffix@) == Some(v@),
        r is None ==> spec_cover_url_for_size(url@, size_suffix@) is None,
{
    let chars = str_chars(url);
    let rest = match strip_scheme(&chars) {
        Some(rest) => rest,
        None => return None,
    };
    let host = str_chars("covers.openlibrary.org/");
    let path = match strip_prefix_exec(&rest, &host) {
        Some(path) => path,
        None => return None,
    };
    let path = before_first_exec(&path, '?');
    match rfind_char(&path, '-') {
        Some(i) => {
            proof {
                lemma_last_pos(path@, '-');
            }
            let prefix = slice_chars(&path, 0, i);
            let mut r = owned("https://covers.openlibrary.org/");
            push_chars(&mut r, &prefix);
            push_str(&mut r, "-");
            push_str(&mut r, size_suffix);
            push_str(&mut r, ".jpg?default=false");
            Some(r)
        },
        None => None,
    }
}


/// Every character of `s` is an ASCII digit.
pub open spec fn all_ascii_digits(s: Seq<char>) -> bool {
    forall|i: int| 0 <= i < s.len() ==> '0' <= #[trigger] s[i] && s[i] <= '9'
}

/// The cover URL for a cover parameter that is an Open Library cover id
/// (all ASCII digits), at size `size_suffix`; none for a book hash.
pub open spec fn direct_cover_url_text(param: Seq<char>, size_suffix: Seq<char>) -> Option<
    Seq<char>,
> {
    if all_ascii_digits(param) {
        Some(
            "https://covers.openlibrary.org/b/id/"@ + param + "-"@ + size_suffix
                + ".jpg?default=false"@,
        )
    } else {
        None
    }
}

/// The cover URL for a cover parameter that is an Open Library cover id.
pub fn direct_cover_url(param: &str, size_suffix: &str) -> (r: Option<String>)
    ensures
        match r {
            Some(u) => direct_cover_url_text(param@, size_suffix@) == Some(u@),
            None => direct_cover_url_text(param@, size_suffix@) is None,
        },
{
    let chars = str_chars(param);
    let mut i: usize = 0;
    while i < chars.len()
        invariant
            i <= chars.len(),
            chars@ == param@,
            forall|j: int| 0 <= j < i ==> '0' <= #[trigger] chars@[j] && chars@[j] <= '9',
        decreases chars.len() - i,
    {
        if chars[i] < '0' || chars[i] > '9' {
            return None;
        }
        i = i + 1;
    }
    let mut r = owned("https://covers.openlibrary.org/b/id/");
    push_str(&mut r, param);
    push_str(&mut r, "-");
    push_str(&mut r, size_suffix);
    push_str(&mut r, ".jpg?default=false");
    Some(r)
}

/// The title and author drawn on a generated cover: the cached book's, else
/// "Unknown".
pub fn cover_labels(book: &Option<BookEntry>) -> (r: (String, String))
    ensures
        r.0@ == match book {
            Some(b) => b.title@,
            None => "Unknown"@,
        },
        r.1@ == match book {
            Some(b) => b.author@,
            None => "Unknown"@,
        },
{
    match book {
        Some(b) => (b.title.clone(), b.author.clone()),
        None => (owned("Unknown"), owned("Unknown")),
    }
}

/// Whether a book's cover is looked up again: never checked, or last
/// checked no later than the cutoff.
pub fn needs_cover_enrichment(cover_checked_at: Option<i64>, min_cover_checked_at: i64) -> (r: bool)
    ensures
        r == match cover_checked_at {
            Some(t) => t <= min_cover_checked_at,
            None => true,
        },
{
    match cover_checked_at {
        Some(t) => t <= min_cover_checked_at,
        None => true,
    }
}


// ---------------------------------------------------------------------------
// Resolving a cover request
// ---------------------------------------------------------------------------
/// Where the resolution of one cover request stands.
#[derive(Debug, Clone, Copy, PartialEq, Eq, Structural)]
pub enum CoverPhase {
    /// Nothing done yet.
    Begin,
    /// Waiting for the cached book.
    AwaitBook,
    /// Waiting for the book's cover to be remembered as the hot resolution.
    AwaitRemember,
    /// Waiting for the hot (in-memory) resolution.
    AwaitHot,
    /// Waiting for when the cover was last looked up.
    AwaitCheck,
    /// Waiting for the cover lookup.
    AwaitEnrich,
    /// Waiting for the cover image download.
    AwaitFetch,
    /// Resolved.
    Done,
}

/// The state of one cover request: its phase, the labels for a generated
/// cover, the cover URL to remember, and whether a failed download falls
/// back to a generated cover.
#[derive(Debug, Clone)]
pub struct CoverState {
    pub phase: CoverPhase,
    pub title: String,
    pub author: String,
    pub cover: Option<String>,
    pub fallback: bool,
}

/// What the caller reports back after an action.
#[derive(Debug, Clone)]
pub enum CoverEvent {
    /// The request starts.
    Start,
    /// The cached book for the hash, if there is a fresh one.
    CachedBook(Option<BookEntry>),
    /// The cover was remembered.
    Remembered,
    /// The hot resolution for the hash: none, or a remembered answer (a cover
    /// URL, or none found).
    Hot(Option<Option<String>>),
    /// When the cached book's cover was last looked up (outer `None`: no
    /// cached book), and the cutoff before which a lookup is stale.
    CoverCheck(Option<Option<i64>>, i64),
    /// The cover URL that the lookup found.
    Enriched(Option<String>),
    /// Whether the image download succeeded.
    Fetched(bool),
}

/// What the caller does next.
#[derive(Debug, Clone)]
pub enum CoverAction {
    /// Download the image at this URL, then report `Fetched`.
    Fetch(String),
    /// Read the fresh cached book, then report `CachedBook`.
    LookupBook,
    /// Read the hot resolution, then report `Hot`.
    LookupHot,
    /// Remember this cover as the hot resolution, then report `Remembered`.
    Remember(Option<String>),
    /// Read when the cover was last looked up, then report `CoverCheck`.
    CheckEnrichment,
    /// Look the cover up (once for concurrent requests), remember the
    /// outcome, then report `Enriched`.
    Enrich,
    /// Answer with a generated cover with this title and author.
    Generate(String, String),
    /// Answer with the downloaded image, whatever its status.
    Serve,
    /// The event does not belong to this state: nothing is left to do.
    Stop,
}

/// The model of a `CoverState`.
pub struct CoverStateView {
    pub phase: CoverPhase,
    pub title: Seq<char>,
    pub author: Seq<char>,
    pub cover: Option<Seq<char>>,
    pub fallback: bool,
}

/// The model of a `CoverAction`.
pub enum CoverActionView {
    Fetch(Seq<char>),
    LookupBook,
    LookupHot,
    Remember(Option<Seq<char>>),
    CheckEnrichment,
    Enrich,
    Generate(Seq<char>, Seq<char>),
    Serve,
    Stop,
}

impl View for CoverState {
    type V = CoverStateView;

    open spec fn view(&self) -> CoverStateView {
        CoverStateView {
            phase: self.phase,
            title: self.title@,
            author: self.author@,
            cover: match self.cover {
                Some(c) => Some(c@),
                None => None,
            },
            fallback: self.fallback,
        }
    }
}

impl View for CoverAction {
    type V = CoverActionView;

    open spec fn view(&self) -> CoverActionView {
        match self {
            CoverAction::Fetch(u) => CoverActionView::Fetch(u@),
            CoverAction::LookupBook => CoverActionView::LookupBook,
            CoverAction::LookupHot => CoverActionView::LookupHot,
            CoverAction::Remember(c) => CoverActionView::Remember(
                match c {
                    Some(c) => Some(c@),
                    None => None,
                },
            ),
            CoverAction::CheckEnrichment => CoverActionView::CheckEnrichment,
            CoverAction::Enrich => CoverActionView::Enrich,
            CoverAction::Generate(t, a) => CoverActionView::Generate(t@, a@),
            CoverAction::Serve => CoverActionView::Serve,
            CoverAction::Stop => CoverActionView::Stop,
        }
    }
}

/// A cover state with the given parts.
pub open spec fn cover_state_view(
    phase: CoverPhase,
    title: Seq<char>,
    author: Seq<char>,
    cover: Option<Seq<char>>,
    fallback: bool,
) -> CoverStateView {
    CoverStateView { phase, title, author, cover, fallback }
}

/// The state before a cover request starts.
pub open spec fn cover_begin_view() -> CoverStateView {
    cover_state_view(CoverPhase::Begin, Seq::empty(), Seq::empty(), None, false)
}

/// The last step for a resolved cover URL: download it at the requested
/// size where it is an Open Library cover URL, falling back to a generated
/// cover; a generated cover at once where there is none.
pub open spec fn spec_cover_finish(
    size_suffix: Seq<char>,
    title: Seq<char>,
    author: Seq<char>,
    cover: Option<Seq<char>>,
) -> (CoverStateView, CoverActionView) {
    let done = cover_state_view(CoverPhase::Done, title, author, None, false);
    match cover {
        Some(c) => match spec_cover_url_for_size(c, size_suffix) {
            Some(u) => (
                cover_state_view(CoverPhase::AwaitFetch, title, author, None, true),
                CoverActionView::Fetch(u),
            ),
            None => (done, CoverActionView::Generate(title, author)),
        },
        None => (done, CoverActionView::Generate(title, author)),
    }
}

/// One step of resolving the cover `param` (an Open Library cover id or a
/// book hash) at size `size_suffix`:
/// - a cover id is downloaded directly and served whatever comes back;
/// - otherwise the cached book gives the labels (else "Unknown"); its cover
///   URL, if it has one, is remembered and used;
/// - else a remembered cover URL is used, and a remembered "no cover"
///   answers with a generated cover at once;
/// - else the cover is looked up where it never was or the last lookup is
///   stale, and a generated cover answers where it is not;
/// - a resolved URL is downloaded at the requested size, and a failed
///   download, or a URL that is not an Open Library cover, gives a generated
///   cover.
/// An event that does not belong to the state ends the request.
pub open spec fn spec_cover_step(
    param: Seq<char>,
    size_suffix: Seq<char>,
    s: CoverStateView,
    ev: CoverEvent,
) -> (CoverStateView, CoverActionView) {
    let t = s.title;
    let a = s.author;
    let done = cover_state_view(CoverPhase::Done, t, a, None, false);
    match (s.phase, ev) {
        (CoverPhase::Begin, CoverEvent::Start) => match direct_cover_url_text(param, size_suffix) {
            Some(u) => (
                cover_state_view(CoverPhase::AwaitFetch, t, a, None, false),
                CoverActionView::Fetch(u),
            ),
            None => (
                cover_state_view(CoverPhase::AwaitBook, t, a, None, false),
                CoverActionView::LookupBook,
            ),
        },
        (CoverPhase::AwaitBook, CoverEvent::CachedBook(b)) => match b {
            Some(e) => match e.cover_url {
                Some(c) => (
                    cover_state_view(CoverPhase::AwaitRemember, e.title@, e.author@, Some(c@), false),
                    CoverActionView::Remember(Some(c@)),
                ),
                None => (
                    cover_state_view(CoverPhase::AwaitHot, e.title@, e.author@, None, false),
                    CoverActionView::LookupHot,
                ),
            },
            None => (
                cover_state_view(CoverPhase::AwaitHot, "Unknown"@, "Unknown"@, None, false),
                CoverActionView::LookupHot,
            ),
        },
        (CoverPhase::AwaitRemember, CoverEvent::Remembered) => spec_cover_finish(
            size_suffix,
            t,
            a,
            s.cover,
        ),
        (CoverPhase::AwaitHot, CoverEvent::Hot(h)) => match h {
            Some(Some(c)) => spec_cover_finish(size_suffix, t, a, Some(c@)),
            Some(None) => (done, CoverActionView::Generate(t, a)),
            None => (
                cover_state_view(CoverPhase::AwaitCheck, t, a, None, false),
                CoverActionView::CheckEnrichment,
            ),
        },
        (CoverPhase::AwaitCheck, CoverEvent::CoverCheck(checked, min_checked_at)) => {
            let needed = match checked {
                Some(Some(at)) => at <= min_checked_at,
                _ => true,
            };
            if needed {
                (
                    cover_state_view(CoverPhase::AwaitEnrich, t, a, None, false),
                    CoverActionView::Enrich,
                )
            } else {
                (done, CoverActionView::Generate(t, a))
            }
        },
        (CoverPhase::AwaitEnrich, CoverEvent::Enriched(c)) => spec_cover_finish(
            size_suffix,
            t,
            a,
            match c {
                Some(c) => Some(c@),
                None => None,
            },
        ),
        (CoverPhase::AwaitFetch, CoverEvent::Fetched(ok)) => if ok || !s.fallback {
            (done, CoverActionView::Serve)
        } else {
            (done, CoverActionView::Generate(t, a))
        },
        _ => (done, CoverActionView::Stop),
    }
}

/// The state before a cover request starts.
pub fn cover_begin() -> (s: CoverState)
    ensures
        s@ == cover_begin_view(),
{
    CoverState { phase: CoverPhase::Begin, title: String::new(), author: String::new(), cover: None, fallback: false }
}

fn cover_finish(size_suffix: &str, title: String, author: String, cover: Option<String>) -> (r: (
    CoverState,
    CoverAction,
))
    ensures
        (r.0@, r.1@) == spec_cover_finish(
            size_suffix@,
            title@,
            author@,
            match cover {
                Some(c) => Some(c@),
                None => None,
            },
        ),
{
    let sized = match &cover {
        Some(c) => openlibrary_cover_url_for_size(c.as_str(), size_suffix),
        None => None,
    };
    match sized {
        Some(u) => (
            CoverState { phase: CoverPhase::AwaitFetch, title, author, cover: None, fallback: true },
            CoverAction::Fetch(u),
        ),
        None => {
            let t = title.clone();
            let a = author.clone();
            (
                CoverState { phase: CoverPhase::Done, title, author, cover: None, fallback: false },
                CoverAction::Generate(t, a),
            )
        },
    }
}

fn cover_done(s: &CoverState, action: CoverAction) -> (r: (CoverState, CoverAction))
    ensures
        r.0@ == cover_state_view(CoverPhase::Done, s.title@, s.author@, None, false),
        r.1@ == action@,
{
    (
        CoverState {
            phase: CoverPhase::Done,
            title: s.title.clone(),
            author: s.author.clone(),
            cover: None,
            fallback: false,
        },
        action,
    )
}

/// One step of resolving a cover request: the next state and what the
/// caller does next, as `spec_cover_step` says.
pub fn cover_step(param: &str, size_suffix: &str, s: &CoverState, ev: CoverEvent) -> (r: (
    CoverState,
    CoverAction,
))
    ensures
        (r.0@, r.1@) == spec_cover_step(param@, size_suffix@, s@, ev),
{
    match (s.phase, ev) {
        (CoverPhase::Begin, CoverEvent::Start) => match direct_cover_url(param, size_suffix) {
            Some(u) => (
                CoverState {
                    phase: CoverPhase::AwaitFetch,
                    title: s.title.clone(),
                    author: s.author.clone(),
                    cover: None,
                    fallback: false,
                },
                CoverAction::Fetch(u),
            ),
            None => (
                CoverState {
                    phase: CoverPhase::AwaitBook,
                    title: s.title.clone(),
                    author: s.author.clone(),
                    cover: None,
                    fallback: false,
                },
                CoverAction::LookupBook,
            ),
        },
        (CoverPhase::AwaitBook, CoverEvent::CachedBook(b)) => match b {
            Some(e) => match e.cover_url {
                Some(c) => {
                    let remembered = c.clone();
                    (
                        CoverState {
                            phase: CoverPhase::AwaitRemember,
                            title: e.title,
                            author: e.author,
                            cover: Some(c),
                            fallback: false,
                        },
                        CoverAction::Remember(Some(remembered)),
                    )
                },
                None => (
                    CoverState {
                        phase: CoverPhase::AwaitHot,
                        title: e.title,
                        author: e.author,
                        cover: None,
                        fallback: false,
                    },
                    CoverAction::LookupHot,
                ),
            },
            None => (
                CoverState {
                    phase: CoverPhase::AwaitHot,
                    title: owned("Unknown"),
                    author: owned("Unknown"),
                    cover: None,
                    fallback: false,
                },
                CoverAction::LookupHot,
            ),
        },
        (CoverPhase::AwaitRemember, CoverEvent::Remembered) => {
            let cover = match &s.cover {
                Some(c) => Some(c.clone()),
                None => None,
            };
            cover_finish(size_suffix, s.title.clone(), s.author.clone(), cover)
        },
        (CoverPhase::AwaitHot, CoverEvent::Hot(h)) => match h {
            Some(Some(c)) => cover_finish(size_suffix, s.title.clone(), s.author.clone(), Some(c)),
            Some(None) => cover_done(s, CoverAction::Generate(s.title.clone(), s.author.clone())),
            None => (
                CoverState {
                    phase: CoverPhase::AwaitCheck,
                    title: s.title.clone(),
                    author: s.author.clone(),
                    cover: None,
                    fallback: false,
                },
                CoverAction::CheckEnrichment,
            ),
        },
        (CoverPhase::AwaitCheck, CoverEvent::CoverCheck(checked, min_checked_at)) => {
            let needed = match checked {
                Some(at) => needs_cover_enrichment(at, min_checked_at),
                None => true,
            };
            if needed {
                (
                    CoverState {
                        phase: CoverPhase::AwaitEnrich,
                        title: s.title.clone(),
                        author: s.author.clone(),
                        cover: None,
                        fallback: false,
                    },
                    CoverAction::Enrich,
                )
            } else {
                cover_done(s, CoverAction::Generate(s.title.clone(), s.author.clone()))
            }
        },
        (CoverPhase::AwaitEnrich, CoverEvent::Enriched(c)) => cover_finish(
            size_suffix,
            s.title.clone(),
            s.author.clone(),
            c,
        ),
        (CoverPhase::AwaitFetch, CoverEvent::Fetched(ok)) => if ok || !s.fallback {
            cover_done(s, CoverAction::Serve)
        } else {
            cover_done(s, CoverAction::Generate(s.title.clone(), s.author.clone()))
        },
        _ => cover_done(s, CoverAction::Stop),
    }
}

} // verus!

verus! {

proof fn lemma_first_pos_at(s: Seq<char>, c: char, q: int)
    requires
        0 <= q < s.len(),
        s[q] == c,
        forall|j: int| 0 <= j < q ==> s[j] != c,
    ensures
        first_pos(s, c) == Some(q),
{
    lemma_first_pos(s, c);
}

proof fn lemma_last_pos_at(s: Seq<char>, c: char, q: int)
    requires
        0 <= q < s.len(),
        s[q] == c,
        forall|j: int| q < j < s.len() ==> s[j] != c,
    ensures
        last_pos(s, c) == Some(q),
{
    lemma_last_pos(s, c);
}

/// Resizing a resized cover URL is the same as resizing the first URL: a
/// cover URL rewritten for one size can be rewritten again for another,
/// whatever size letters (without `?` or `-`) are used.
pub proof fn lemma_cover_resize_idempotent(url: Seq<char>, size: Seq<char>, other: Seq<char>)
    requires
        forall|k: int| 0 <= k < size.len() ==> size[k] != '?' && size[k] != '-',
        spec_cover_url_for_size(url, size) is Some,
    ensures
        spec_cover_url_for_size(spec_cover_url_for_size(url, size)->0, other)
            == spec_cover_url_for_size(url, other),
{
    reveal_strlit("https://");
    reveal_strlit("http://");
    reveal_strlit("covers.openlibrary.org/");
    reveal_strlit("https://covers.openlibrary.org/");
    reveal_strlit("-");
    reveal_strlit(".jpg?default=false");
    let rest = strip_http_scheme(url)->0;
    let path0 = strip_prefix(rest, "covers.openlibrary.org/"@)->0;
    let path = before_first(path0, '?');
    let i = last_pos(path, '-')->0;
    let p = path.take(i);
    lemma_first_pos(path0, '?');
    lemma_last_pos(path, '-');
    assert(forall|j: int| 0 <= j < p.len() ==> p[j] != '?');
    let h = "https://covers.openlibrary.org/"@;
    let tail = "-"@ + size + ".jpg?default=false"@;
    let v = h + p + tail;
    assert(spec_cover_url_for_size(url, size) == Some(v));
    assert(h =~= "https://"@ + "covers.openlibrary.org/"@);
    assert("https://"@.is_prefix_of(v));
    let rest2 = v.skip(8);
    assert(rest2 =~= "covers.openlibrary.org/"@ + p + tail);
    assert("covers.openlibrary.org/"@.is_prefix_of(rest2));
    let w = rest2.skip(23);
    assert(w =~= p + tail);
    let q: int = (p.len() + 1 + size.len() + 4) as int;
    assert(w[q] == '?');
    assert forall|j: int| 0 <= j < q implies w[j] != '?' by {
        if j < p.len() {
            assert(w[j] == p[j]);
        } else if j == p.len() {
            assert(w[j] == '-');
        } else if j < p.len() + 1 + size.len() {
            assert(w[j] == size[j - p.len() - 1]);
        } else {
            assert(w[j] == ".jpg?default=false"@[j - p.len() - 1 - size.len()]);
        }
    }
    lemma_first_pos_at(w, '?', q);
    let path2 = w.take(q);
    assert(path2 =~= p + "-"@ + size + ".jpg"@) by {
        reveal_strlit(".jpg");
    }
    reveal_strlit(".jpg");
    assert(path2[p.len() as int] == '-');
    assert forall|j: int| p.len() < j < path2.len() implies path2[j] != '-' by {
        if j < p.len() + 1 + size.len() {
            assert(path2[j] == size[j - p.len() - 1]);
        } else {
            assert(path2[j] == ".jpg"@[j - p.len() - 1 - size.len()]);
        }
    }
    lemma_last_pos_at(path2, '-', p.len() as int);
    assert(path2.take(p.len() as int) =~= p);
}


/// A cover URL found for a book (on its cached entry, remembered in memory,
/// or by the lookup) that is an Open Library cover is downloaded at the
/// requested size; that download is served when it succeeds, and only when
/// it fails is a cover generated, with the book's title and author.
pub proof fn lemma_found_cover_is_fetched(
    param: Seq<char>,
    size_suffix: Seq<char>,
    s: CoverStateView,
    ev: CoverEvent,
    found: Seq<char>,
)
    requires
        spec_cover_url_for_size(found, size_suffix) is Some,
        ({
            ||| (s.phase == CoverPhase::AwaitEnrich && (ev matches CoverEvent::Enriched(Some(c))
                && c@ == found))
            ||| (s.phase == CoverPhase::AwaitHot && (ev matches CoverEvent::Hot(Some(Some(c)))
                && c@ == found))
            ||| (s.phase == CoverPhase::AwaitRemember && ev is Remembered && s.cover == Some(
                found,
            ))
        }),
    ensures
        ({
            let (next, action) = spec_cover_step(param, size_suffix, s, ev);
            &&& action == CoverActionView::Fetch(spec_cover_url_for_size(found, size_suffix)->0)
            &&& spec_cover_step(param, size_suffix, next, CoverEvent::Fetched(true)).1
                == CoverActionView::Serve
            &&& spec_cover_step(param, size_suffix, next, CoverEvent::Fetched(false)).1
                == CoverActionView::Generate(s.title, s.author)
        }),
{
}

/// A cached book's cover URL is remembered first, and then downloaded at the
/// requested size where it is an Open Library cover.
pub proof fn lemma_cached_cover_is_remembered_then_fetched(
    param: Seq<char>,
    size_suffix: Seq<char>,
    s: CoverStateView,
    book: BookEntry,
    found: String,
)
    requires
        s.phase == CoverPhase::AwaitBook,
        book.cover_url == Some(found),
        spec_cover_url_for_size(found@, size_suffix) is Some,
    ensures
        ({
            let (next, action) = spec_cover_step(param, size_suffix, s, CoverEvent::CachedBook(Some(book)));
            &&& action == CoverActionView::Remember(Some(found@))
            &&& spec_cover_step(param, size_suffix, next, CoverEvent::Remembered).1
                == CoverActionView::Fetch(spec_cover_url_for_size(found@, size_suffix)->0)
        }),
{
}

/// A cover parameter of digits is an Open Library cover id: it is
/// downloaded directly, and the download is served whether or not it
/// succeeds.
pub proof fn lemma_cover_id_is_fetched_directly(
    param: Seq<char>,
    size_suffix: Seq<char>,
    ok: bool,
)
    requires
        all_ascii_digits(param),
    ensures
        ({
            let (next, action) = spec_cover_step(param, size_suffix, cover_begin_view(), CoverEvent::Start);
            &&& action == CoverActionView::Fetch(
                "https://covers.openlibrary.org/b/id/"@ + param + "-"@ + size_suffix
                    + ".jpg?default=false"@,
            )
            &&& spec_cover_step(param, size_suffix, next, CoverEvent::Fetched(ok)).1
                == CoverActionView::Serve
        }),
{
}

/// Once no cover is known, the cover is looked up again exactly when it
/// never was or its last lookup is no later than the cutoff; otherwise the
/// answer is a cover generated with the request's labels. A remembered "no
/// cover" answers with a generated cover at once.
pub proof fn lemma_cover_lookup_only_when_stale(
    param: Seq<char>,
    size_suffix: Seq<char>,
    s: CoverStateView,
    checked: Option<Option<i64>>,
    min_checked_at: i64,
)
    requires
        s.phase == CoverPhase::AwaitCheck,
    ensures
        ({
            let stale = match checked {
                Some(Some(at)) => at <= min_checked_at,
                _ => true,
            };
            let action = spec_cover_step(
                param,
                size_suffix,
                s,
                CoverEvent::CoverCheck(checked, min_checked_at),
            ).1;
            &&& stale ==> action == CoverActionView::Enrich
            &&& !stale ==> action == CoverActionView::Generate(s.title, s.author)
        }),
        ({
            let hot = cover_state_view(CoverPhase::AwaitHot, s.title, s.author, None, false);
            spec_cover_step(param, size_suffix, hot, CoverEvent::Hot(Some(None))).1
                == CoverActionView::Generate(s.title, s.author)
        }),
{
}

/// A generated cover carries the cached book's title and author, or
/// "Unknown" for both where no book is cached.
pub proof fn lemma_generated_cover_labels(
    param: Seq<char>,
    size_suffix: Seq<char>,
    s: CoverStateView,
    book: Option<BookEntry>,
)
    requires
        s.phase == CoverPhase::AwaitBook,
        book matches Some(b) ==> b.cover_url is None,
    ensures
        ({
            let next = spec_cover_step(param, size_suffix, s, CoverEvent::CachedBook(book)).0;
            let labels = match book {
                Some(b) => (b.title@, b.author@),
                None => ("Unknown"@, "Unknown"@),
            };
            spec_cover_step(param, size_suffix, next, CoverEvent::Hot(Some(None))).1
                == CoverActionView::Generate(labels.0, labels.1)
        }),
{
}

} // verus!
