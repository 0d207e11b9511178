//! Configuration values shared by the request flows.
use vstd::prelude::*;

verus! {

/// A subject offered for browsing: its Open Library slug and display name.
#[derive(Debug, Clone)]
pub struct ExploreSubject {
    pub slug: String,
    pub name: String,
}

impl ExploreSubject {
    /// A copy of this subject.
    pub fn copy(&self) -> (r: Self)
        ensures
            r == *self,
    {
        ExploreSubject { slug: self.slug.clone(), name: self.name.clone() }
    }
}

/// A cover lookup result kept in memory: the cover found (if any) and when.
#[derive(Debug, Clone)]
pub struct HotCoverResolution {
    pub cover_url: Option<String>,
    pub cached_at: i64,
}


/// The archive mirror used for a request: the only one, or the one whose
/// turn it is in rotation.
pub open spec fn archive_base_at(bases: Seq<String>, turn: int) -> String {
    if bases.len() <= 1 {
        bases[0]
    } else {
        bases[turn % (bases.len() as int)]
    }
}

/// The archive mirror used for the request numbered `turn`.
pub fn archive_base_for_turn(bases: &Vec<String>, turn: usize) -> (r: &String)
    requires
        bases@.len() > 0,
    ensures
        *r == archive_base_at(bases@, turn as int),
{
    if bases.len() <= 1 {
        &bases[0]
    } else {
        &bases[turn % bases.len()]
    }
}

proof fn lemma_turn_index(r: int, k: int, n: int)
    requires
        r >= 0,
        n > 0,
        0 <= k < n,
    ensures
        (r + k) % n == if r % n + k < n {
            r % n + k
        } else {
            r % n + k - n
        },
{
    let q = r / n;
    let m = r % n;
    vstd::arithmetic::div_mod::lemma_fundamental_div_mod(r, n);
    assert(0 <= m < n) by {
        vstd::arithmetic::div_mod::lemma_mod_pos_bound(r, n);
    }
    if m + k < n {
        assert(r + k == n * q + (m + k));
        vstd::arithmetic::div_mod::lemma_mod_multiples_vanish(q, m + k, n);
        vstd::arithmetic::div_mod::lemma_small_mod((m + k) as nat, n as nat);
    } else {
        assert(r + k == n * (q + 1) + (m + k - n)) by (nonlinear_arith)
            requires
                r == n * q + m,
        ;
        vstd::arithmetic::div_mod::lemma_mod_multiples_vanish(q + 1, m + k - n, n);
        vstd::arithmetic::div_mod::lemma_small_mod((m + k - n) as nat, n as nat);
    }
}

/// Round robin: the mirrors used for `n` successive requests, starting at
/// any turn, are the `n` configured mirrors rotated, so each is used exactly
/// once.
pub proof fn lemma_turns_rotate_through_mirrors(bases: Seq<String>, start: int)
    requires
        bases.len() > 0,
        start >= 0,
    ensures
        Seq::new(bases.len(), |k: int| archive_base_at(bases, start + k)) == bases.subrange(
            start % (bases.len() as int),
            bases.len() as int,
        ) + bases.subrange(0, start % (bases.len() as int)),
{
    let n = bases.len() as int;
    let m = start % n;
    assert(0 <= m < n) by {
        vstd::arithmetic::div_mod::lemma_mod_pos_bound(start, n);
    }
    let lhs = Seq::new(bases.len(), |k: int| archive_base_at(bases, start + k));
    let rhs = bases.subrange(m, n) + bases.subrange(0, m);
    assert forall|k: int| 0 <= k < n implies lhs[k] == rhs[k] by {
        if n > 1 {
            lemma_turn_index(start, k, n);
        } else {
            assert(m == 0) by {
                vstd::arithmetic::div_mod::lemma_small_mod(0, 1);
                vstd::arithmetic::div_mod::lemma_mod_pos_bound(start, n);
            }
        }
    }
    assert(lhs =~= rhs);
}

} // verus!
