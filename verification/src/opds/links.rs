//! Link construction for catalog documents.
use vstd::prelude::*;
use vstd::string::StrSliceExecFns;

use crate::encoding::{url_encode, url_encode_str};
use crate::text::{
    before_first, before_first_exec, dec_nat, owned, push_chars, push_str, starts_with, str_chars, string_of,
    strip_prefix, strip_prefix_exec, trim_end_char, trim_end_char_exec, u64_to_dec,
};

verus! {

broadcast use vstd::string::group_string_axioms;

/// `path` made absolute against the public base URL, when one is configured
/// and not empty; trailing slashes of the base are dropped.
pub open spec fn spec_absolute_url(base: Option<Seq<char>>, path: Seq<char>) -> Seq<char> {
    match base {
        Some(b) => if b.len() > 0 {
            trim_end_char(b, '/') + path
        } else {
            path
        },
        None => path,
    }
}

/// `url` without its `https://` or, failing that, `http://` scheme.
pub open spec fn strip_http_scheme(url: Seq<char>) -> Option<Seq<char>> {
    match strip_prefix(url, "https://"@) {
        Some(rest) => Some(rest),
        None => strip_prefix(url, "http://"@),
    }
}

/// The numeric cover id of an Open Library `b/id/` cover URL: the part after
/// `covers.openlibrary.org/b/id/` up to the first `-`, when that is not empty.
pub open spec fn spec_extract_cover_id(url: Seq<char>) -> Option<Seq<char>> {
    match strip_http_scheme(url) {
        Some(rest) => match strip_prefix(rest, "covers.openlibrary.org/b/id/"@) {
            Some(tail) => {
                let id = before_first(tail, '-');
                if id.len() == 0 {
                    None
                } else {
                    Some(id)
                }
            },
            None => None,
        },
        None => None,
    }
}

/// The search feed path for `query` at `page` (pages below 1 count as 1).
pub open spec fn spec_search_page_path(query: Seq<char>, page: nat) -> Seq<char> {
    "/opds/search?q="@ + url_encode(query) + "&page="@ + dec_nat(if page < 1 {
        1
    } else {
        page
    })
}

/// Makes `path` absolute against `public_base_url` when that is set and not
/// empty.
pub fn absolute_url(public_base_url: Option<&str>, path: &str) -> (r: String)
    ensures
        r@ == spec_absolute_url(
            match public_base_url {
                Some(b) => Some(b@),
                None => None,
            },
            path@,
        ),
{
    match public_base_url {
        Some(base) => {
            let b = str_chars(base);
            if b.len() > 0 {
                let trimmed = trim_end_char_exec(&b, '/');
                let mut r = string_of(&trimmed);
                push_str(&mut r, path);
                r
            } else {
                owned(path)
            }
        },
        None => owned(path),
    }
}

/// `url` without its `http(s)://` scheme, as characters.
fn strip_http_scheme_exec(url: &Vec<char>) -> (r: Option<Vec<char>>)
    ensures
        r matches Some(v) ==> strip_http_scheme(url@) == Some(v@),
        r is None ==> strip_http_scheme(url@) is None,
{
    let https = str_chars("https://");
    match strip_prefix_exec(url, &https) {
        Some(rest) => Some(rest),
        None => {
            let http = str_chars("http://");
            strip_prefix_exec(url, &http)
        },
    }
}

/// The cover id of an Open Library `b/id/` cover URL, as characters.
pub fn extract_cover_id_chars(url: &Vec<char>) -> (r: Option<Vec<char>>)
    ensures
        r matches Some(v) ==> spec_extract_cover_id(url@) == Some(v@),
        r is None ==> spec_extract_cover_id(url@) is None,
{
    let rest = match strip_http_scheme_exec(url) {
        Some(rest) => rest,
        None => return None,
    };
    let host = str_chars("covers.openlibrary.org/b/id/");
    let tail = match strip_prefix_exec(&rest, &host) {
        Some(tail) => tail,
        None => return None,
    };
    let id = before_first_exec(&tail, '-');
    if id.len() == 0 {
        None
    } else {
        Some(id)
    }
}

/// The numeric cover id of an Open Library cover URL such as
/// `https://covers.openlibrary.org/b/id/12345-M.jpg`, borrowed from `url`.
pub fn extract_cover_id(url: &str) -> (r: Option<&str>)
    ensures
        r matches Some(v) ==> spec_extract_cover_id(url@) == Some(v@),
        r is None ==> spec_extract_cover_id(url@) is None,
{
    let chars = str_chars(url);
    match extract_cover_id_chars(&chars) {
        Some(id) => {
            let total = chars.len();
            let https = str_chars("https://");
            let start = if starts_with(&chars, &https) {
                https.len()
            } else {
                7
            };
            proof {
                let http = "http://"@;
                if !"https://"@.is_prefix_of(url@) {
                    reveal_strlit("http://");
                    assert(http.len() == 7);
                }
            }
            let host_len: usize = 28;
            proof {
                reveal_strlit("covers.openlibrary.org/b/id/");
                assert("covers.openlibrary.org/b/id/"@.len() == 28);
                let rest = strip_http_scheme(url@).unwrap();
                assert(rest =~= url@.skip(start as int));
                let tail = rest.skip(28);
                assert(tail =~= url@.skip(start + 28));
                crate::text::lemma_first_pos(tail, '-');
                assert(id@ =~= tail.take(id@.len() as int));
                assert(start + 28 + id@.len() <= url@.len());
                assert(id@ =~= url@.subrange(start + 28, start + 28 + id@.len()));
            }
            Some(url.substring_char(start + host_len, start + host_len + id.len()))
        },
        None => None,
    }
}

/// Path of the search feed for `query` at `page`.
pub fn search_page_path(query: &str, page: usize) -> (r: String)
    ensures
        r@ == spec_search_page_path(query@, page as nat),
{
    let encoded = url_encode_str(query);
    let page = if page < 1 {
        1
    } else {
        page
    };
    let mut r = owned("/opds/search?q=");
    push_str(&mut r, encoded.as_str());
    push_str(&mut r, "&page=");
    let digits = u64_to_dec(page as u64);
    push_chars(&mut r, &digits);
    r
}

} // verus!
