//! Retry policy for upstream requests: how many attempts, and how long to
//! wait between them (exponential backoff).
use vstd::prelude::*;

use vstd::arithmetic::power2::{lemma2_to64, pow2};
use vstd::bits::lemma_u64_shl_is_mul;

verus! {

/// The longest wait between two attempts, in milliseconds.
pub const MAX_BACKOFF_MS: u64 = 30000;

/// How many characters of a page body are kept for debugging.
pub const HTML_SNIPPET_CHARS: usize = 2048;

/// The doubling step for an attempt: the attempt number less one, at most 5.
pub open spec fn backoff_shift(attempt: usize) -> nat {
    if attempt <= 1 {
        0
    } else if attempt - 1 >= 5 {
        5
    } else {
        (attempt - 1) as nat
    }
}

/// The wait before retrying after `attempt`: the base (capped) doubled once
/// per earlier attempt up to five times, capped again.
pub open spec fn backoff_ceiling(base_ms: u64, attempt: usize) -> int {
    let base = if base_ms < MAX_BACKOFF_MS {
        base_ms as int
    } else {
        MAX_BACKOFF_MS as int
    };
    let shifted = base * pow2(backoff_shift(attempt));
    if shifted < MAX_BACKOFF_MS {
        shifted
    } else {
        MAX_BACKOFF_MS as int
    }
}

/// The wait in milliseconds before retrying after `attempt`: the base
/// (capped at the longest wait) doubled once per earlier attempt, up to five
/// times, and capped again.
pub fn retry_backoff(base_ms: u64, attempt: usize) -> (r: u64)
    ensures
        r == backoff_ceiling(base_ms, attempt),
        r <= MAX_BACKOFF_MS,
{
    let base: u64 = if base_ms < MAX_BACKOFF_MS {
        base_ms
    } else {
        MAX_BACKOFF_MS
    };
    let prior: usize = if attempt == 0 {
        0
    } else {
        attempt - 1
    };
    let shift: u64 = if prior < 5 {
        prior as u64
    } else {
        5
    };
    proof {
        lemma2_to64();
        assert(shift == backoff_shift(attempt));
        assert(1 * pow2(shift as nat) <= 32);
        lemma_u64_shl_is_mul(1, shift);
    }
    let multiplier: u64 = 1u64 << shift;
    assert(base * multiplier <= 30000 * 32) by (nonlinear_arith)
        requires
            base <= 30000,
            multiplier <= 32,
    ;
    let shifted = base * multiplier;
    if shifted < MAX_BACKOFF_MS {
        shifted
    } else {
        MAX_BACKOFF_MS
    }
}

/// How many attempts a request gets: as configured, but at least one.
pub fn retry_attempts(configured: usize) -> (r: usize)
    ensures
        r == if configured < 1 {
            1
        } else {
            configured
        },
{
    if configured < 1 {
        1
    } else {
        configured
    }
}

/// What follows a failed attempt.
#[derive(Debug, Clone, Copy, PartialEq, Eq, Structural)]
pub enum RetryStep {
    /// Wait this many milliseconds, then make the next attempt.
    Retry { wait_ms: u64 },
    /// No attempt is left: report the last error.
    GiveUp,
}

/// What follows the failure of attempt `attempt` (counted from 1) out of
/// `attempts`: another attempt after the backoff while any is left.
pub fn after_failure(attempt: usize, attempts: usize, base_ms: u64) -> (r: RetryStep)
    ensures
        attempt < attempts <==> r is Retry,
        r matches RetryStep::Retry { wait_ms } ==> wait_ms == backoff_ceiling(base_ms, attempt),
{
    if attempt < attempts {
        RetryStep::Retry { wait_ms: retry_backoff(base_ms, attempt) }
    } else {
        RetryStep::GiveUp
    }
}

/// The start of a page body kept for debugging: its first 2048 characters.
pub fn html_snippet(html: &str) -> (r: String)
    ensures
        r@ == if html@.len() <= HTML_SNIPPET_CHARS {
            html@
        } else {
            html@.take(HTML_SNIPPET_CHARS as int)
        },
{
    let mut r = String::new();
    let mut n: usize = 0;
    for c in it: html.chars()
        invariant
            it.seq() == html@,
            n <= HTML_SNIPPET_CHARS,
            n == if it.index() <= HTML_SNIPPET_CHARS {
                it.index()
            } else {
                HTML_SNIPPET_CHARS as int
            },
            r@ == html@.take(n as int),
    {
        if n < HTML_SNIPPET_CHARS {
            crate::text::push_char(&mut r, c);
            n = n + 1;
            assert(r@ =~= html@.take(n as int));
        }
    }
    proof {
        if n == html@.len() {
            assert(html@.take(n as int) =~= html@);
        }
    }
    r
}


/// The wait never exceeds the longest wait; it is zero for a zero base; it
/// does not shrink from one attempt to the next; and from the first attempt
/// through the fifth it doubles with each attempt until it reaches the
/// longest wait, after which it stays there.
pub proof fn lemma_backoff_growth(base_ms: u64, attempt: usize)
    requires
        attempt < usize::MAX,
    ensures
        0 <= backoff_ceiling(base_ms, attempt) <= MAX_BACKOFF_MS,
        base_ms == 0 ==> backoff_ceiling(base_ms, attempt) == 0,
        backoff_ceiling(base_ms, attempt) <= backoff_ceiling(base_ms, (attempt + 1) as usize),
        1 <= attempt <= 5 ==> backoff_ceiling(base_ms, (attempt + 1) as usize) == if 2
            * backoff_ceiling(base_ms, attempt) < MAX_BACKOFF_MS {
            2 * backoff_ceiling(base_ms, attempt)
        } else {
            MAX_BACKOFF_MS as int
        },
        attempt >= 6 ==> backoff_ceiling(base_ms, attempt) == backoff_ceiling(base_ms, 6),
{
    lemma2_to64();
    let base = if base_ms < MAX_BACKOFF_MS {
        base_ms as int
    } else {
        MAX_BACKOFF_MS as int
    };
    let k = backoff_shift(attempt);
    let k1 = backoff_shift((attempt + 1) as usize);
    assert(k <= 5 && k1 <= 5);
    assert(k1 == k || k1 == k + 1);
    assert(pow2(k) >= 1);
    assert(base * pow2(k) >= 0) by (nonlinear_arith)
        requires
            base >= 0,
            pow2(k) >= 1,
    ;
    assert(base * pow2(k) <= base * pow2(k1)) by (nonlinear_arith)
        requires
            base >= 0,
            pow2(k) <= pow2(k1),
    ;
    if 1 <= attempt <= 5 {
        assert(k1 == k + 1);
        assert(pow2(k1) == 2 * pow2(k));
        assert(base * pow2(k1) == 2 * (base * pow2(k))) by (nonlinear_arith)
            requires
                pow2(k1) == 2 * pow2(k),
        ;
    }
    if base_ms == 0 {
        assert(base == 0);
        assert(base * pow2(k) == 0) by (nonlinear_arith)
            requires
                base == 0,
        ;
    }
}

} // verus!
