//! Request parameters of the catalog's endpoints and the plain answers
//! computed from them.
use vstd::prelude::*;

use crate::text::str_chars;

verus! {

/// Query parameters of the cover endpoint.
#[derive(Debug, Clone)]
pub struct CoverParams {
    pub size: Option<String>,
}

/// Query parameters of the search endpoint.
#[derive(Debug, Clone)]
pub struct SearchParams {
    pub q: String,
    pub page: Option<usize>,
}

/// Query parameters of the explore endpoints.
#[derive(Debug, Clone)]
pub struct ExploreParams {
    pub page: Option<usize>,
}

/// The body of the health and readiness endpoints.
#[derive(Debug, Clone, Copy)]
pub struct HealthPayload {
    pub status: &'static str,
}

impl HealthPayload {
    /// The readiness answer: `ok` where the database answers, else
    /// `db_unavailable`.
    pub fn ready(database_available: bool) -> (r: Self)
        ensures
            r.status@ == if database_available {
                "ok"@
            } else {
                "db_unavailable"@
            },
    {
        if database_available {
            HealthPayload { status: "ok" }
        } else {
            HealthPayload { status: "db_unavailable" }
        }
    }
}

/// The Open Library size letter for a requested cover size: `small`,
/// `medium` and `large` give S, M and L; anything else gives M.
pub open spec fn size_suffix_for(size: Option<Seq<char>>) -> Seq<char> {
    match size {
        Some(s) => if s == "small"@ {
            "S"@
        } else if s == "large"@ {
            "L"@
        } else {
            "M"@
        },
        None => "M"@,
    }
}

/// The Open Library size letter for a requested cover size.
pub fn cover_size_suffix(size: Option<&str>) -> (r: &'static str)
    ensures
        r@ == size_suffix_for(
            match size {
                Some(s) => Some(s@),
                None => None,
            },
        ),
{
    match size {
        Some(s) => {
            let c = str_chars(s);
            if crate::text::chars_eq(&c, &str_chars("small")) {
                "S"
            } else if crate::text::chars_eq(&c, &str_chars("large")) {
                "L"
            } else {
                "M"
            }
        },
        None => "M",
    }
}

/// The page asked for: the given page, at least 1; page 1 where none is
/// given.
pub fn requested_page(page: Option<usize>) -> (r: usize)
    ensures
        r == match page {
            Some(p) => if p < 1 {
                1
            } else {
                p
            },
            None => 1,
        },
{
    match page {
        Some(p) => if p < 1 {
            1
        } else {
            p
        },
        None => 1,
    }
}


/// The title of a subject's explore feed.
pub fn subject_feed_title(subject_name: &str) -> (r: String)
    ensures
        r@ == "Explore: "@ + subject_name@,
{
    let mut r = crate::text::owned("Explore: ");
    crate::text::push_str(&mut r, subject_name);
    r
}

/// The feed id of a subject's explore feed.
pub fn subject_feed_id(app_name: &str, subject: &str) -> (r: String)
    ensures
        r@ == "urn:"@ + app_name@ + ":explore:subject:"@ + subject@,
{
    let mut r = crate::text::owned("urn:");
    crate::text::push_str(&mut r, app_name);
    crate::text::push_str(&mut r, ":explore:subject:");
    crate::text::push_str(&mut r, subject);
    r
}

/// The path of a subject's explore feed.
pub fn subject_feed_path(subject: &str) -> (r: String)
    ensures
        r@ == "/opds/explore/subject/"@ + subject@,
{
    let mut r = crate::text::owned("/opds/explore/subject/");
    crate::text::push_str(&mut r, subject);
    r
}

/// The feed id of the popular top list.
pub fn top_feed_id(app_name: &str) -> (r: String)
    ensures
        r@ == "urn:"@ + app_name@ + ":explore:top"@,
{
    let mut r = crate::text::owned("urn:");
    crate::text::push_str(&mut r, app_name);
    crate::text::push_str(&mut r, ":explore:top");
    r
}

} // verus!
