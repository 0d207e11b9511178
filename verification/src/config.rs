//! Runtime configuration: command-line overrides, environment values and
//! their defaults, and the subjects offered for browsing.
use vstd::prelude::*;

use crate::numbers::{parse_i64, parse_i64_spec, parse_u64, parse_unsigned, parse_usize};
use crate::opds::feeds::{opt_string_view, opt_view};
use crate::service::search::string_views;
use crate::state::ExploreSubject;
use crate::text::{
    char_views, chars_eq, join, lemma_join_push, owned, push_chars, push_str, split_chars,
    split_on, str_chars, string_of, strip_prefix, strip_prefix_exec, to_uppercase, trim,
    trim_end_char, trim_end_char_exec, trim_exec, uppercase_of,
};

verus! {

/// How log lines are laid out on the terminal.
#[derive(Debug, Clone, Copy, PartialEq, Eq, Structural)]
pub enum LogStyle {
    Compact,
    Pretty,
}

impl LogStyle {
    /// The variant's name, as `{:?}` prints it.
    pub fn name(&self) -> (r: &'static str)
        ensures
            r@ == log_style_name(*self),
    {
        match self {
            LogStyle::Compact => "Compact",
            LogStyle::Pretty => "Pretty",
        }
    }
}

/// The name of a log style.
pub open spec fn log_style_name(s: LogStyle) -> Seq<char> {
    match s {
        LogStyle::Compact => "Compact"@,
        LogStyle::Pretty => "Pretty"@,
    }
}

/// The effective runtime configuration.
#[derive(Debug, Clone)]
pub struct AppConfig {
    pub database_url: String,
    pub bind_addr: String,
    pub archive_base: String,
    pub archive_name: String,
    pub app_name: String,
    pub metadata_base_url: String,
    pub flaresolverr_url: String,
    pub flaresolverr_session: String,
    pub public_base_url: Option<String>,
    pub rust_log: String,
    pub log_style: LogStyle,
    pub search_cache_ttl_secs: i64,
    pub book_cache_ttl_secs: i64,
    pub link_cache_ttl_secs: i64,
    pub link_failure_ttl_secs: i64,
    pub explore_cache_ttl_secs: i64,
    pub cover_negative_ttl_secs: i64,
    pub search_result_limit: usize,
    pub explore_page_size: usize,
    pub cover_lookup_limit: usize,
    pub inline_info_concurrency: usize,
    pub cover_lookup_concurrency: usize,
    pub search_prewarm_count: usize,
    pub upstream_retry_attempts: usize,
    pub upstream_retry_backoff_ms: u64,
    pub cleanup_interval_secs: u64,
    pub explore_subjects_raw: String,
    /// The archive mirrors that requests are raced and rotated over.
    pub archive_bases: Vec<String>,
}

/// The command line: an optional subcommand.
#[derive(Debug)]
pub struct Cli {
    pub command: Option<Command>,
}

/// What the program is asked to do.
#[derive(Debug)]
pub enum Command {
    /// Start the OPDS server.
    Serve(ServeArgs),
    /// Print the effective runtime config as JSON.
    PrintConfig(ServeArgs),
}

/// Settings given on the command line; each overrides its environment value.
#[derive(Debug, Clone, Default)]
pub struct ServeArgs {
    pub database_url: Option<String>,
    pub bind_addr: Option<String>,
    pub archive_base: Option<String>,
    pub archive_name: Option<String>,
    pub app_name: Option<String>,
    pub metadata_base_url: Option<String>,
    pub flaresolverr_url: Option<String>,
    pub flaresolverr_session: Option<String>,
    pub public_base_url: Option<String>,
    pub rust_log: Option<String>,
    pub log_style: Option<LogStyle>,
}

/// The environment variables that the configuration reads, each as set or
/// not set.
#[derive(Debug, Clone, Default)]
pub struct ConfigEnv {
    pub database_url: Option<String>,
    pub bind_addr: Option<String>,
    pub archive_base: Option<String>,
    pub archive_name: Option<String>,
    pub app_name: Option<String>,
    pub metadata_base_url: Option<String>,
    pub flaresolverr_url: Option<String>,
    pub flaresolverr_session: Option<String>,
    pub public_base_url: Option<String>,
    pub rust_log: Option<String>,
    pub log_style: Option<String>,
    pub search_cache_ttl_secs: Option<String>,
    pub book_cache_ttl_secs: Option<String>,
    pub link_cache_ttl_secs: Option<String>,
    pub link_failure_ttl_secs: Option<String>,
    pub explore_cache_ttl_secs: Option<String>,
    pub cover_negative_ttl_secs: Option<String>,
    pub search_result_limit: Option<String>,
    pub explore_page_size: Option<String>,
    pub cover_lookup_limit: Option<String>,
    pub inline_info_concurrency: Option<String>,
    pub cover_lookup_concurrency: Option<String>,
    pub search_prewarm_count: Option<String>,
    pub upstream_retry_attempts: Option<String>,
    pub upstream_retry_backoff_ms: Option<String>,
    pub cleanup_interval_secs: Option<String>,
    pub explore_subjects: Option<String>,
    pub archive_urls: Option<String>,
}

/// A numeric environment value that does not parse: the variable and the
/// text it holds.
#[derive(Debug, Clone)]
pub struct ConfigError {
    pub key: String,
    pub value: String,
}

impl ConfigError {
    /// The error's message.
    pub fn message(&self) -> (r: String)
        ensures
            r@ == "failed to parse env var "@ + self.key@ + "="@ + self.value@,
    {
        let mut r = owned("failed to parse env var ");
        push_str(&mut r, self.key.as_str());
        push_str(&mut r, "=");
        push_str(&mut r, self.value.as_str());
        r
    }
}

/// The subjects offered when `EXPLORE_SUBJECTS` is not set.
pub const DEFAULT_EXPLORE_SUBJECTS: &'static str = "architecture,art_instruction,art_history,dance,design,fashion,film,graphic_design,music,music_theory,painting,photography,bears,cats,kittens,dogs,puppies,fantasy,historical_fiction,horror,humor,literature,magic,mystery_and_detective_stories,plays,poetry,romance,science_fiction,short_stories,thriller,young_adult_fiction,biology,chemistry,mathematics,physics,programming,management,entrepreneurship,business_economics,business_success,finance,kids_books,stories_in_rhyme,baby_books,bedtime_books,picture_books,ancient_civilization,archaeology,anthropology,world_war_ii,social_life_and_customs,cooking,cookbooks,mental_health,exercise,nutrition,self_help,autobiographies,politics_and_government,women,kings_and_rulers,composers,artists,religion,political_science,psychology,brazil,india,indonesia,united_states,geography,algebra,education,science,english_language,computer_science";

// ---------------------------------------------------------------------------
// Specification
// ---------------------------------------------------------------------------
/// A text setting: the command-line value, else the environment value, else
/// the default.
pub open spec fn setting(arg: Option<String>, env: Option<String>, default: Seq<char>) -> Seq<
    char,
> {
    match arg {
        Some(a) => a@,
        None => match env {
            Some(e) => e@,
            None => default,
        },
    }
}

/// The public base URL: the command-line value, else the environment value,
/// without trailing slashes; absent where nothing is left.
pub open spec fn public_base_setting(arg: Option<String>, env: Option<String>) -> Option<
    Seq<char>,
> {
    let raw = match arg {
        Some(a) => Some(a@),
        None => opt_string_view(env),
    };
    match raw {
        Some(v) => if trim_end_char(v, '/').len() > 0 {
            Some(trim_end_char(v, '/'))
        } else {
            None
        },
        None => None,
    }
}

/// `c` with ASCII capitals lowered.
pub open spec fn ascii_lower_char(c: char) -> char {
    if 'A' <= c && c <= 'Z' {
        ((c as u32) + 32) as char
    } else {
        c
    }
}

/// `s` with ASCII capitals lowered (`str::to_ascii_lowercase`).
pub open spec fn ascii_lower(s: Seq<char>) -> Seq<char> {
    s.map_values(|c: char| ascii_lower_char(c))
}

/// The log style: the command-line value, else `pretty` or `compact` from
/// the environment in any ASCII case, else compact.
pub open spec fn log_style_setting(arg: Option<LogStyle>, env: Option<String>) -> LogStyle {
    match arg {
        Some(s) => s,
        None => match env {
            Some(v) => if ascii_lower(v@) == "pretty"@ {
                LogStyle::Pretty
            } else {
                LogStyle::Compact
            },
            None => LogStyle::Compact,
        },
    }
}

/// An environment value that is set and does not parse as an `i64`.
pub open spec fn bad_i64(v: Option<String>) -> bool {
    v matches Some(s) && parse_i64_spec(s@) is None
}

/// An environment value that is set and does not parse as an unsigned
/// integer no larger than `max`.
pub open spec fn bad_unsigned(v: Option<String>, max: nat) -> bool {
    v matches Some(s) && parse_unsigned(s@, max) is None
}

/// A numeric `i64` setting: the parsed environment value, else the default.
pub open spec fn i64_setting(v: Option<String>, default: int) -> int {
    match v {
        Some(s) => match parse_i64_spec(s@) {
            Some(n) => n,
            None => default,
        },
        None => default,
    }
}

/// A numeric unsigned setting: the parsed environment value, else the
/// default.
pub open spec fn unsigned_setting(v: Option<String>, max: nat, default: int) -> int {
    match v {
        Some(s) => match parse_unsigned(s@, max) {
            Some(n) => n as int,
            None => default,
        },
        None => default,
    }
}

/// The error for `v` under `key`.
pub open spec fn error_of(key: Seq<char>, v: Option<String>) -> Option<(Seq<char>, Seq<char>)> {
    match v {
        Some(s) => Some((key, s@)),
        None => None,
    }
}

/// The first numeric environment value, in the order the settings are read,
/// that does not parse: its variable's name and its text.
pub open spec fn first_config_error(env: ConfigEnv) -> Option<(Seq<char>, Seq<char>)> {
    if bad_i64(env.search_cache_ttl_secs) {
        error_of("SEARCH_CACHE_TTL_SECS"@, env.search_cache_ttl_secs)
    } else if bad_i64(env.book_cache_ttl_secs) {
        error_of("BOOK_CACHE_TTL_SECS"@, env.book_cache_ttl_secs)
    } else if bad_i64(env.link_cache_ttl_secs) {
        error_of("LINK_CACHE_TTL_SECS"@, env.link_cache_ttl_secs)
    } else if bad_i64(env.link_failure_ttl_secs) {
        error_of("LINK_FAILURE_TTL_SECS"@, env.link_failure_ttl_secs)
    } else if bad_i64(env.explore_cache_ttl_secs) {
        error_of("EXPLORE_CACHE_TTL_SECS"@, env.explore_cache_ttl_secs)
    } else if bad_i64(env.cover_negative_ttl_secs) {
        error_of("COVER_NEGATIVE_TTL_SECS"@, env.cover_negative_ttl_secs)
    } else if bad_unsigned(env.search_result_limit, usize::MAX as nat) {
        error_of("SEARCH_RESULT_LIMIT"@, env.search_result_limit)
    } else if bad_unsigned(env.explore_page_size, usize::MAX as nat) {
        error_of("EXPLORE_PAGE_SIZE"@, env.explore_page_size)
    } else if bad_unsigned(env.cover_lookup_limit, usize::MAX as nat) {
        error_of("COVER_LOOKUP_LIMIT"@, env.cover_lookup_limit)
    } else if bad_unsigned(env.inline_info_concurrency, usize::MAX as nat) {
        error_of("INLINE_INFO_CONCURRENCY"@, env.inline_info_concurrency)
    } else if bad_unsigned(env.cover_lookup_concurrency, usize::MAX as nat) {
        error_of("COVER_LOOKUP_CONCURRENCY"@, env.cover_lookup_concurrency)
    } else if bad_unsigned(env.search_prewarm_count, usize::MAX as nat) {
        error_of("SEARCH_PREWARM_COUNT"@, env.search_prewarm_count)
    } else if bad_unsigned(env.upstream_retry_attempts, usize::MAX as nat) {
        error_of("UPSTREAM_RETRY_ATTEMPTS"@, env.upstream_retry_attempts)
    } else if bad_unsigned(env.upstream_retry_backoff_ms, u64::MAX as nat) {
        error_of("UPSTREAM_RETRY_BACKOFF_MS"@, env.upstream_retry_backoff_ms)
    } else if bad_unsigned(env.cleanup_interval_secs, u64::MAX as nat) {
        error_of("CACHE_CLEANUP_INTERVAL_SECS"@, env.cleanup_interval_secs)
    } else {
        None
    }
}

/// The text settings of `c` are those that `args` and `env` give.
pub open spec fn text_settings_hold(c: AppConfig, args: ServeArgs, env: ConfigEnv) -> bool {
    &&& c.database_url@ == setting(args.database_url, env.database_url, "sqlite://opds.db?mode=rwc"@)
    &&& c.bind_addr@ == setting(args.bind_addr, env.bind_addr, "0.0.0.0:7070"@)
    &&& c.archive_base@ == setting(args.archive_base, env.archive_base, "http://localhost:8080"@)
    &&& c.archive_name@ == setting(args.archive_name, env.archive_name, "Archive"@)
    &&& c.app_name@ == setting(args.app_name, env.app_name, "shelfd"@)
    &&& c.metadata_base_url@ == setting(
        args.metadata_base_url,
        env.metadata_base_url,
        "https://openlibrary.org"@,
    )
    &&& c.flaresolverr_url@ == setting(
        args.flaresolverr_url,
        env.flaresolverr_url,
        "http://localhost:8191"@,
    )
    &&& c.flaresolverr_session@ == setting(
        args.flaresolverr_session,
        env.flaresolverr_session,
        "opds-session"@,
    )
    &&& opt_string_view(c.public_base_url) == public_base_setting(
        args.public_base_url,
        env.public_base_url,
    )
    &&& c.rust_log@ == setting(args.rust_log, env.rust_log, "info,shelfd=debug,tower_http=warn"@)
    &&& c.log_style == log_style_setting(args.log_style, env.log_style)
    &&& c.explore_subjects_raw@ == setting(None, env.explore_subjects, DEFAULT_EXPLORE_SUBJECTS@)
    &&& string_views(c.archive_bases@) == archive_mirror_list(
        opt_string_view(env.archive_urls),
        c.archive_base@,
    )
}

/// The numeric settings of `c` are those that `env` gives.
pub open spec fn numeric_settings_hold(c: AppConfig, env: ConfigEnv) -> bool {
    &&& c.search_cache_ttl_secs == i64_setting(env.search_cache_ttl_secs, 1800)
    &&& c.book_cache_ttl_secs == i64_setting(env.book_cache_ttl_secs, 86400)
    &&& c.link_cache_ttl_secs == i64_setting(env.link_cache_ttl_secs, 86400)
    &&& c.link_failure_ttl_secs == i64_setting(env.link_failure_ttl_secs, 900)
    &&& c.explore_cache_ttl_secs == i64_setting(env.explore_cache_ttl_secs, 21600)
    &&& c.cover_negative_ttl_secs == i64_setting(env.cover_negative_ttl_secs, 86400)
    &&& c.search_result_limit == unsigned_setting(env.search_result_limit, usize::MAX as nat, 12)
    &&& c.explore_page_size == unsigned_setting(env.explore_page_size, usize::MAX as nat, 50)
    &&& c.cover_lookup_limit == unsigned_setting(env.cover_lookup_limit, usize::MAX as nat, 8)
    &&& c.inline_info_concurrency == unsigned_setting(
        env.inline_info_concurrency,
        usize::MAX as nat,
        6,
    )
    &&& c.cover_lookup_concurrency == unsigned_setting(
        env.cover_lookup_concurrency,
        usize::MAX as nat,
        4,
    )
    &&& c.search_prewarm_count == unsigned_setting(env.search_prewarm_count, usize::MAX as nat, 3)
    &&& c.upstream_retry_attempts == unsigned_setting(
        env.upstream_retry_attempts,
        usize::MAX as nat,
        2,
    )
    &&& c.upstream_retry_backoff_ms == unsigned_setting(
        env.upstream_retry_backoff_ms,
        u64::MAX as nat,
        150,
    )
    &&& c.cleanup_interval_secs == unsigned_setting(env.cleanup_interval_secs, u64::MAX as nat, 3600)
}

// ---------------------------------------------------------------------------
// Resolution
// ---------------------------------------------------------------------------
fn text_setting(arg: &Option<String>, env: &Option<String>, default: &str) -> (r: String)
    ensures
        r@ == setting(*arg, *env, default@),
{
    match arg {
        Some(a) => a.clone(),
        None => match env {
            Some(e) => e.clone(),
            None => owned(default),
        },
    }
}

fn public_base(arg: &Option<String>, env: &Option<String>) -> (r: Option<String>)
    ensures
        opt_string_view(r) == public_base_setting(*arg, *env),
{
    let raw: Option<&String> = match arg {
        Some(a) => Some(a),
        None => match env {
            Some(e) => Some(e),
            None => None,
        },
    };
    match raw {
        Some(v) => {
            let chars = str_chars(v.as_str());
            let t = trim_end_char_exec(&chars, '/');
            if t.len() > 0 {
                Some(string_of(&t))
            } else {
                None
            }
        },
        None => None,
    }
}

fn lower_ascii_char(c: char) -> (r: char)
    ensures
        r == ascii_lower_char(c),
{
    if 'A' <= c && c <= 'Z' {
        let b = c as u8;
        assert(b == c as u32);
        ((b + 32) as u8) as char
    } else {
        c
    }
}

fn log_style_from(arg: &Option<LogStyle>, env: &Option<String>) -> (r: LogStyle)
    ensures
        r == log_style_setting(*arg, *env),
{
    match arg {
        Some(s) => *s,
        None => match env {
            Some(v) => {
                let chars = str_chars(v.as_str());
                let pretty = str_chars("pretty");
                let mut same = chars.len() == pretty.len();
                let mut i: usize = 0;
                while same && i < chars.len()
                    invariant
                        i <= chars.len(),
                        chars@ == v@,
                        pretty@ == "pretty"@,
                        same ==> chars.len() == pretty.len(),
                        same ==> forall|j: int|
                            0 <= j < i ==> ascii_lower_char(chars@[j]) == pretty@[j],
                        !same ==> ascii_lower(v@) != "pretty"@,
                    decreases (chars.len() - i) * 2 + if same {
                        1int
                    } else {
                        0int
                    },
                {
                    if lower_ascii_char(chars[i]) != pretty[i] {
                        assert(ascii_lower(v@)[i as int] != pretty@[i as int]);
                        same = false;
                    } else {
                        i = i + 1;
                    }
                }
                if same {
                    assert(ascii_lower(v@) =~= "pretty"@);
                    LogStyle::Pretty
                } else {
                    LogStyle::Compact
                }
            },
            None => LogStyle::Compact,
        },
    }
}

fn env_i64(v: &Option<String>, key: &str, default: i64) -> (r: Result<i64, ConfigError>)
    ensures
        r matches Ok(n) ==> !bad_i64(*v) && n == i64_setting(*v, default as int),
        r matches Err(e) ==> bad_i64(*v) && error_of(key@, *v) == Some((e.key@, e.value@)),
{
    match v {
        Some(s) => match parse_i64(s.as_str()) {
            Some(n) => Ok(n),
            None => Err(ConfigError { key: owned(key), value: s.clone() }),
        },
        None => Ok(default),
    }
}

fn env_usize(v: &Option<String>, key: &str, default: usize) -> (r: Result<usize, ConfigError>)
    ensures
        r matches Ok(n) ==> !bad_unsigned(*v, usize::MAX as nat) && n == unsigned_setting(
            *v,
            usize::MAX as nat,
            default as int,
        ),
        r matches Err(e) ==> bad_unsigned(*v, usize::MAX as nat) && error_of(key@, *v) == Some(
            (e.key@, e.value@),
        ),
{
    match v {
        Some(s) => match parse_usize(s.as_str()) {
            Some(n) => Ok(n),
            None => Err(ConfigError { key: owned(key), value: s.clone() }),
        },
        None => Ok(default),
    }
}

fn env_u64(v: &Option<String>, key: &str, default: u64) -> (r: Result<u64, ConfigError>)
    ensures
        r matches Ok(n) ==> !bad_unsigned(*v, u64::MAX as nat) && n == unsigned_setting(
            *v,
            u64::MAX as nat,
            default as int,
        ),
        r matches Err(e) ==> bad_unsigned(*v, u64::MAX as nat) && error_of(key@, *v) == Some(
            (e.key@, e.value@),
        ),
{
    match v {
        Some(s) => match parse_u64(s.as_str()) {
            Some(n) => Ok(n),
            None => Err(ConfigError { key: owned(key), value: s.clone() }),
        },
        None => Ok(default),
    }
}

/// The effective configuration: each text setting from the command line,
/// else the environment, else its default; each numeric setting parsed from
/// the environment, else its default. Fails on the first numeric environment
/// value that does not parse.
pub fn load_config(args: &ServeArgs, env: &ConfigEnv) -> (r: Result<AppConfig, ConfigError>)
    ensures
        r is Ok <==> first_config_error(*env) is None,
        r matches Ok(c) ==> text_settings_hold(c, *args, *env) && numeric_settings_hold(c, *env),
        r matches Err(e) ==> first_config_error(*env) == Some((e.key@, e.value@)),
{
    let search_cache_ttl_secs = match env_i64(&env.search_cache_ttl_secs, "SEARCH_CACHE_TTL_SECS", 1800) {
        Ok(n) => n,
        Err(e) => return Err(e),
    };
    let book_cache_ttl_secs = match env_i64(&env.book_cache_ttl_secs, "BOOK_CACHE_TTL_SECS", 86400) {
        Ok(n) => n,
        Err(e) => return Err(e),
    };
    let link_cache_ttl_secs = match env_i64(&env.link_cache_ttl_secs, "LINK_CACHE_TTL_SECS", 86400) {
        Ok(n) => n,
        Err(e) => return Err(e),
    };
    let link_failure_ttl_secs = match env_i64(&env.link_failure_ttl_secs, "LINK_FAILURE_TTL_SECS", 900) {
        Ok(n) => n,
        Err(e) => return Err(e),
    };
    let explore_cache_ttl_secs = match env_i64(&env.explore_cache_ttl_secs, "EXPLORE_CACHE_TTL_SECS", 21600) {
        Ok(n) => n,
        Err(e) => return Err(e),
    };
    let cover_negative_ttl_secs = match env_i64(&env.cover_negative_ttl_secs, "COVER_NEGATIVE_TTL_SECS", 86400) {
        Ok(n) => n,
        Err(e) => return Err(e),
    };
    let search_result_limit = match env_usize(&env.search_result_limit, "SEARCH_RESULT_LIMIT", 12) {
        Ok(n) => n,
        Err(e) => return Err(e),
    };
    let explore_page_size = match env_usize(&env.explore_page_size, "EXPLORE_PAGE_SIZE", 50) {
        Ok(n) => n,
        Err(e) => return Err(e),
    };
    let cover_lookup_limit = match env_usize(&env.cover_lookup_limit, "COVER_LOOKUP_LIMIT", 8) {
        Ok(n) => n,
        Err(e) => return Err(e),
    };
    let inline_info_concurrency = match env_usize(&env.inline_info_concurrency, "INLINE_INFO_CONCURRENCY", 6) {
        Ok(n) => n,
        Err(e) => return Err(e),
    };
    let cover_lookup_concurrency = match env_usize(&env.cover_lookup_concurrency, "COVER_LOOKUP_CONCURRENCY", 4) {
        Ok(n) => n,
        Err(e) => return Err(e),
    };
    let search_prewarm_count = match env_usize(&env.search_prewarm_count, "SEARCH_PREWARM_COUNT", 3) {
        Ok(n) => n,
        Err(e) => return Err(e),
    };
    let upstream_retry_attempts = match env_usize(&env.upstream_retry_attempts, "UPSTREAM_RETRY_ATTEMPTS", 2) {
        Ok(n) => n,
        Err(e) => return Err(e),
    };
    let upstream_retry_backoff_ms = match env_u64(&env.upstream_retry_backoff_ms, "UPSTREAM_RETRY_BACKOFF_MS", 150) {
        Ok(n) => n,
        Err(e) => return Err(e),
    };
    let cleanup_interval_secs = match env_u64(&env.cleanup_interval_secs, "CACHE_CLEANUP_INTERVAL_SECS", 3600) {
        Ok(n) => n,
        Err(e) => return Err(e),
    };
    let archive_base = text_setting(&args.archive_base, &env.archive_base, "http://localhost:8080");
    let archive_urls: Option<&str> = match &env.archive_urls {
        Some(u) => Some(u.as_str()),
        None => None,
    };
    let archive_bases = archive_mirrors(archive_urls, archive_base.as_str());
    Ok(AppConfig {
        database_url: text_setting(&args.database_url, &env.database_url, "sqlite://opds.db?mode=rwc"),
        bind_addr: text_setting(&args.bind_addr, &env.bind_addr, "0.0.0.0:7070"),
        archive_base,
        archive_name: text_setting(&args.archive_name, &env.archive_name, "Archive"),
        app_name: text_setting(&args.app_name, &env.app_name, "shelfd"),
        metadata_base_url: text_setting(&args.metadata_base_url, &env.metadata_base_url, "https://openlibrary.org"),
        flaresolverr_url: text_setting(&args.flaresolverr_url, &env.flaresolverr_url, "http://localhost:8191"),
        flaresolverr_session: text_setting(&args.flaresolverr_session, &env.flaresolverr_session, "opds-session"),
        rust_log: text_setting(&args.rust_log, &env.rust_log, "info,shelfd=debug,tower_http=warn"),
        public_base_url: public_base(&args.public_base_url, &env.public_base_url),
        log_style: log_style_from(&args.log_style, &env.log_style),
        search_cache_ttl_secs,
        book_cache_ttl_secs,
        link_cache_ttl_secs,
        link_failure_ttl_secs,
        explore_cache_ttl_secs,
        cover_negative_ttl_secs,
        search_result_limit,
        explore_page_size,
        cover_lookup_limit,
        inline_info_concurrency,
        cover_lookup_concurrency,
        search_prewarm_count,
        upstream_retry_attempts,
        upstream_retry_backoff_ms,
        cleanup_interval_secs,
        explore_subjects_raw: text_setting(&None, &env.explore_subjects, DEFAULT_EXPLORE_SUBJECTS),
        archive_bases,
    })
}

// ---------------------------------------------------------------------------
// Subjects
// ---------------------------------------------------------------------------
/// Subjects whose display name is not their slug's words capitalized.
pub open spec fn known_subject_name(slug: Seq<char>) -> Option<Seq<char>> {
    if slug == "mystery_and_detective_stories"@ {
        Some("Mystery"@)
    } else if slug == "young_adult_fiction"@ {
        Some("Young Adult Fiction"@)
    } else if slug == "world_war_ii"@ {
        Some("World War II"@)
    } else if slug == "kids_books"@ {
        Some("Kids Books"@)
    } else if slug == "stories_in_rhyme"@ {
        Some("Stories in Rhyme"@)
    } else if slug == "social_life_and_customs"@ {
        Some("Social Life and Customs"@)
    } else if slug == "self_help"@ {
        Some("Self-Help"@)
    } else if slug == "bedtime_books"@ {
        Some("Bedtime Books"@)
    } else if slug == "baby_books"@ {
        Some("Baby Books"@)
    } else if slug == "picture_books"@ {
        Some("Picture Books"@)
    } else if slug == "short_stories"@ {
        Some("Short Stories"@)
    } else if slug == "business_economics"@ {
        Some("Business Economics"@)
    } else if slug == "business_success"@ {
        Some("Business Success"@)
    } else if slug == "english_language"@ {
        Some("English Language"@)
    } else if slug == "computer_science"@ {
        Some("Computer Science"@)
    } else if slug == "graphic_design"@ {
        Some("Graphic Design"@)
    } else if slug == "music_theory"@ {
        Some("Music Theory"@)
    } else if slug == "art_instruction"@ {
        Some("Art Instruction"@)
    } else if slug == "art_history"@ {
        Some("Art History"@)
    } else if slug == "historical_fiction"@ {
        Some("Historical Fiction"@)
    } else if slug == "young_adult"@ {
        Some("Young Adult"@)
    } else if slug == "ancient_civilization"@ {
        Some("Ancient Civilization"@)
    } else if slug == "political_science"@ {
        Some("Political Science"@)
    } else if slug == "politics_and_government"@ {
        Some("Politics and Government"@)
    } else if slug == "kings_and_rulers"@ {
        Some("Kings and Rulers"@)
    } else {
        None
    }
}

/// `part` with its first character in upper case.
pub open spec fn capitalized(part: Seq<char>) -> Seq<char> {
    if part.len() == 0 {
        Seq::empty()
    } else {
        uppercase_of(part[0]) + part.drop_first()
    }
}

/// The non-empty parts, each capitalized.
pub open spec fn title_words(parts: Seq<Seq<char>>) -> Seq<Seq<char>>
    decreases parts.len(),
{
    if parts.len() == 0 {
        Seq::empty()
    } else {
        let prev = title_words(parts.drop_last());
        if parts.last().len() > 0 {
            prev.push(capitalized(parts.last()))
        } else {
            prev
        }
    }
}

/// The display name of a subject: from the table of known names, else the
/// underscore-separated words of its slug capitalized and joined by spaces.
pub open spec fn subject_display_name(slug: Seq<char>) -> Seq<char> {
    match known_subject_name(slug) {
        Some(n) => n,
        None => join(title_words(split_on(slug, '_')), seq![' ']),
    }
}

/// The items of a comma-separated list: its pieces trimmed, empty ones
/// dropped.
pub open spec fn list_items(pieces: Seq<Seq<char>>) -> Seq<Seq<char>>
    decreases pieces.len(),
{
    if pieces.len() == 0 {
        Seq::empty()
    } else {
        let prev = list_items(pieces.drop_last());
        if trim(pieces.last()).len() > 0 {
            prev.push(trim(pieces.last()))
        } else {
            prev
        }
    }
}

fn known_name(slug: &Vec<char>) -> (r: Option<&'static str>)
    ensures
        opt_view(r) == known_subject_name(slug@),
{
    if chars_eq(slug, &str_chars("mystery_and_detective_stories")) {
        return Some("Mystery");
    }
    if chars_eq(slug, &str_chars("young_adult_fiction")) {
        return Some("Young Adult Fiction");
    }
    if chars_eq(slug, &str_chars("world_war_ii")) {
        return Some("World War II");
    }
    if chars_eq(slug, &str_chars("kids_books")) {
        return Some("Kids Books");
    }
    if chars_eq(slug, &str_chars("stories_in_rhyme")) {
        return Some("Stories in Rhyme");
    }
    if chars_eq(slug, &str_chars("social_life_and_customs")) {
        return Some("Social Life and Customs");
    }
    if chars_eq(slug, &str_chars("self_help")) {
        return Some("Self-Help");
    }
    if chars_eq(slug, &str_chars("bedtime_books")) {
        return Some("Bedtime Books");
    }
    if chars_eq(slug, &str_chars("baby_books")) {
        return Some("Baby Books");
    }
    if chars_eq(slug, &str_chars("picture_books")) {
        return Some("Picture Books");
    }
    if chars_eq(slug, &str_chars("short_stories")) {
        return Some("Short Stories");
    }
    if chars_eq(slug, &str_chars("business_economics")) {
        return Some("Business Economics");
    }
    if chars_eq(slug, &str_chars("business_success")) {
        return Some("Business Success");
    }
    if chars_eq(slug, &str_chars("english_language")) {
        return Some("English Language");
    }
    if chars_eq(slug, &str_chars("computer_science")) {
        return Some("Computer Science");
    }
    if chars_eq(slug, &str_chars("graphic_design")) {
        return Some("Graphic Design");
    }
    if chars_eq(slug, &str_chars("music_theory")) {
        return Some("Music Theory");
    }
    if chars_eq(slug, &str_chars("art_instruction")) {
        return Some("Art Instruction");
    }
    if chars_eq(slug, &str_chars("art_history")) {
        return Some("Art History");
    }
    if chars_eq(slug, &str_chars("historical_fiction")) {
        return Some("Historical Fiction");
    }
    if chars_eq(slug, &str_chars("young_adult")) {
        return Some("Young Adult");
    }
    if chars_eq(slug, &str_chars("ancient_civilization")) {
        return Some("Ancient Civilization");
    }
    if chars_eq(slug, &str_chars("political_science")) {
        return Some("Political Science");
    }
    if chars_eq(slug, &str_chars("politics_and_government")) {
        return Some("Politics and Government");
    }
    if chars_eq(slug, &str_chars("kings_and_rulers")) {
        return Some("Kings and Rulers");
    }
    None
}

/// The display name for a subject slug.
fn prettify_subject_name(slug: &str) -> (r: String)
    ensures
        r@ == subject_display_name(slug@),
{
    let chars = str_chars(slug);
    match known_name(&chars) {
        Some(n) => return owned(n),
        None => {},
    }
    let parts = split_chars(&chars, '_');
    let ghost pv = char_views(parts@);
    let mut out: Vec<char> = Vec::new();
    let mut any = false;
    let mut k: usize = 0;
    while k < parts.len()
        invariant
            k <= parts.len(),
            pv == char_views(parts@),
            out@ == join(title_words(pv.take(k as int)), seq![' ']),
            any == (title_words(pv.take(k as int)).len() > 0),
        decreases parts.len() - k,
    {
        proof {
            assert(pv.take(k + 1).drop_last() =~= pv.take(k as int));
        }
        let part = &parts[k];
        if part.len() > 0 {
            let mut w = to_uppercase(part[0]);
            let ghost w0 = w@;
            let mut j: usize = 1;
            while j < part.len()
                invariant
                    1 <= j <= part.len(),
                    w@ == w0 + part@.subrange(1, j as int),
                decreases part.len() - j,
            {
                w.push(part[j]);
                j = j + 1;
                assert(w@ =~= w0 + part@.subrange(1, j as int));
            }
            proof {
                assert(part@.drop_first() =~= part@.subrange(1, part.len() as int));
                lemma_join_push(title_words(pv.take(k as int)), seq![' '], capitalized(part@));
            }
            if any {
                out.push(' ');
            }
            let mut j2: usize = 0;
            let ghost o0 = out@;
            while j2 < w.len()
                invariant
                    j2 <= w.len(),
                    out@ == o0 + w@.take(j2 as int),
                decreases w.len() - j2,
            {
                out.push(w[j2]);
                j2 = j2 + 1;
                assert(out@ =~= o0 + w@.take(j2 as int));
            }
            assert(w@.take(w.len() as int) =~= w@);
            any = true;
        }
        k = k + 1;
    }
    assert(pv.take(parts.len() as int) =~= pv);
    string_of(&out)
}

/// The subjects listed in `value`, separated by commas; each slug is trimmed
/// and empty ones are skipped. Where none is left, the one subject Science
/// Fiction.
pub fn parse_explore_subjects(value: &str) -> (r: Vec<ExploreSubject>)
    ensures
        list_items(split_on(value@, ',')).len() == 0 ==> r@.len() == 1 && r@[0].slug@
            == "science_fiction"@ && r@[0].name@ == "Science Fiction"@,
        list_items(split_on(value@, ',')).len() > 0 ==> r@.len() == list_items(
            split_on(value@, ','),
        ).len() && forall|i: int|
            0 <= i < r@.len() ==> #[trigger] r@[i].slug@ == list_items(split_on(value@, ','))[i]
                && r@[i].name@ == subject_display_name(r@[i].slug@),
{
    let chars = str_chars(value);
    let pieces = split_chars(&chars, ',');
    let ghost pv = char_views(pieces@);
    let mut out: Vec<ExploreSubject> = Vec::new();
    let mut k: usize = 0;
    while k < pieces.len()
        invariant
            k <= pieces.len(),
            pv == char_views(pieces@),
            out@.len() == list_items(pv.take(k as int)).len(),
            forall|i: int|
                0 <= i < out@.len() ==> #[trigger] out@[i].slug@ == list_items(
                    pv.take(k as int),
                )[i] && out@[i].name@ == subject_display_name(out@[i].slug@),
        decreases pieces.len() - k,
    {
        proof {
            assert(pv.take(k + 1).drop_last() =~= pv.take(k as int));
        }
        let t = trim_exec(&pieces[k]);
        if t.len() > 0 {
            let slug = string_of(&t);
            let name = prettify_subject_name(slug.as_str());
            out.push(ExploreSubject { slug, name });
        }
        k = k + 1;
    }
    assert(pv.take(pieces.len() as int) =~= pv);
    if out.len() == 0 {
        out.push(ExploreSubject { slug: owned("science_fiction"), name: owned("Science Fiction") });
    }
    out
}

/// The items of a comma-separated list, trimmed, empty ones dropped.
pub fn comma_items(value: &str) -> (r: Vec<String>)
    ensures
        string_views(r@) == list_items(split_on(value@, ',')),
{
    let chars = str_chars(value);
    let pieces = split_chars(&chars, ',');
    let ghost pv = char_views(pieces@);
    let mut out: Vec<String> = Vec::new();
    let mut k: usize = 0;
    while k < pieces.len()
        invariant
            k <= pieces.len(),
            pv == char_views(pieces@),
            string_views(out@) == list_items(pv.take(k as int)),
        decreases pieces.len() - k,
    {
        proof {
            assert(pv.take(k + 1).drop_last() =~= pv.take(k as int));
        }
        let t = trim_exec(&pieces[k]);
        if t.len() > 0 {
            out.push(string_of(&t));
            assert(string_views(out@) =~= list_items(pv.take(k as int)).push(trim(pv[k as int])));
        }
        k = k + 1;
    }
    assert(pv.take(pieces.len() as int) =~= pv);
    out
}

/// The archive mirrors: the items of the comma-separated `ARCHIVE_URLS`
/// where it is set and lists any, else the single archive base.
pub open spec fn archive_mirror_list(urls: Option<Seq<char>>, base: Seq<char>) -> Seq<Seq<char>> {
    match urls {
        Some(u) => if list_items(split_on(u, ',')).len() > 0 {
            list_items(split_on(u, ','))
        } else {
            seq![base]
        },
        None => seq![base],
    }
}

/// The archive mirrors requests go to: the items of `ARCHIVE_URLS` where it
/// lists any, else the single archive base.
pub fn archive_mirrors(archive_urls: Option<&str>, archive_base: &str) -> (r: Vec<String>)
    ensures
        string_views(r@) == archive_mirror_list(opt_view(archive_urls), archive_base@),
{
    let mut r: Vec<String> = match archive_urls {
        Some(u) => comma_items(u),
        None => Vec::new(),
    };
    if r.len() == 0 {
        r.push(owned(archive_base));
        assert(string_views(r@) =~= seq![archive_base@]);
    }
    r
}

/// The address to show for the OPDS endpoint: a wildcard bind address is
/// shown as the loopback address on the same port.
pub open spec fn display_host(bind_addr: Seq<char>) -> Seq<char> {
    match strip_prefix(bind_addr, "0.0.0.0:"@) {
        Some(port) => "127.0.0.1:"@ + port,
        None => bind_addr,
    }
}

fn display_host_for_summary(bind_addr: &str) -> (r: String)
    ensures
        r@ == display_host(bind_addr@),
{
    let chars = str_chars(bind_addr);
    match strip_prefix_exec(&chars, &str_chars("0.0.0.0:")) {
        Some(port) => {
            let mut r = owned("127.0.0.1:");
            push_chars(&mut r, &port);
            r
        },
        None => owned(bind_addr),
    }
}

/// The startup summary of a configuration.
pub open spec fn startup_summary_text(c: AppConfig) -> Seq<char> {
    c.app_name@ + " starting\n  bind: "@ + c.bind_addr@ + "\n  opds: http://"@ + display_host(
        c.bind_addr@,
    ) + "/opds\n  flaresolverr: "@ + c.flaresolverr_url@ + "\n  archive: "@ + c.archive_name@
        + " ("@ + c.archive_base@ + ")\n  metadata: "@ + c.metadata_base_url@
        + "\n  explore subjects: "@ + c.explore_subjects_raw@ + "\n  log style: "@
        + log_style_name(c.log_style)
}

/// The summary logged when the server starts.
pub fn startup_summary(config: &AppConfig) -> (r: String)
    ensures
        r@ == startup_summary_text(*config),
{
    let mut r = config.app_name.clone();
    push_str(&mut r, " starting\n  bind: ");
    push_str(&mut r, config.bind_addr.as_str());
    push_str(&mut r, "\n  opds: http://");
    let host = display_host_for_summary(config.bind_addr.as_str());
    push_str(&mut r, host.as_str());
    push_str(&mut r, "/opds\n  flaresolverr: ");
    push_str(&mut r, config.flaresolverr_url.as_str());
    push_str(&mut r, "\n  archive: ");
    push_str(&mut r, config.archive_name.as_str());
    push_str(&mut r, " (");
    push_str(&mut r, config.archive_base.as_str());
    push_str(&mut r, ")\n  metadata: ");
    push_str(&mut r, config.metadata_base_url.as_str());
    push_str(&mut r, "\n  explore subjects: ");
    push_str(&mut r, config.explore_subjects_raw.as_str());
    push_str(&mut r, "\n  log style: ");
    push_str(&mut r, config.log_style.name());
    r
}


proof fn lemma_trim_end_char_last(v: Seq<char>, c: char)
    ensures
        trim_end_char(v, c).len() > 0 ==> trim_end_char(v, c).last() != c,
    decreases v.len(),
{
    if v.len() > 0 && v.last() == c {
        lemma_trim_end_char_last(v.drop_last(), c);
    }
}

/// A configured public base URL is never empty and never ends with a slash,
/// so links made from it never hold a doubled slash at the join.
pub proof fn lemma_public_base_has_no_trailing_slash(arg: Option<String>, env: Option<String>)
    ensures
        public_base_setting(arg, env) matches Some(v) ==> v.len() > 0 && v.last() != '/',
{
    let raw = match arg {
        Some(a) => Some(a@),
        None => opt_string_view(env),
    };
    match raw {
        Some(v) => lemma_trim_end_char_last(v, '/'),
        None => {},
    }
}

} // verus!
