//! Ordering of items by integer sort keys.
use vstd::prelude::*;

verus! {

broadcast use vstd::seq_lib::group_seq_properties;

/// Lexicographic order on integer sequences, a proper prefix first.
pub open spec fn lex_le(a: Seq<int>, b: Seq<int>) -> bool
    decreases a.len(),
{
    if a.len() == 0 {
        true
    } else if b.len() == 0 {
        false
    } else if a[0] < b[0] {
        true
    } else if a[0] > b[0] {
        false
    } else {
        lex_le(a.drop_first(), b.drop_first())
    }
}

/// The integers of a key vector.
pub open spec fn key_ints(k: Seq<i128>) -> Seq<int> {
    k.map_values(|x: i128| x as int)
}

/// `s` is in non-decreasing order of `key`.
pub open spec fn sorted_by_key<T>(s: Seq<T>, key: spec_fn(T) -> Seq<int>) -> bool {
    forall|i: int, j: int| 0 <= i < j < s.len() ==> lex_le(key(s[i]), key(s[j]))
}

/// Any two keys are ordered one way or the other.
pub proof fn lemma_lex_total(a: Seq<int>, b: Seq<int>)
    ensures
        lex_le(a, b) || lex_le(b, a),
    decreases a.len(),
{
    if a.len() > 0 && b.len() > 0 && a[0] == b[0] {
        lemma_lex_total(a.drop_first(), b.drop_first());
    }
}

/// Where two ordered keys agree on their first `k` entries, the first key's
/// entry at `k` is no greater than the second's.
pub proof fn lemma_lex_le_at(a: Seq<int>, b: Seq<int>, k: int)
    requires
        lex_le(a, b),
        0 <= k < a.len(),
        k < b.len(),
        forall|m: int| 0 <= m < k ==> a[m] == b[m],
    ensures
        a[k] <= b[k],
    decreases k,
{
    if k > 0 {
        assert(a[0] == b[0]);
        assert forall|m: int| 0 <= m < k - 1 implies a.drop_first()[m] == b.drop_first()[m] by {
            assert(a[m + 1] == b[m + 1]);
        }
        lemma_lex_le_at(a.drop_first(), b.drop_first(), k - 1);
    }
}

/// Where two ordered keys agree on their first `k` entries, what follows
/// them is ordered too.
pub proof fn lemma_lex_le_skip(a: Seq<int>, b: Seq<int>, k: int)
    requires
        lex_le(a, b),
        0 <= k <= a.len(),
        k <= b.len(),
        forall|m: int| 0 <= m < k ==> a[m] == b[m],
    ensures
        lex_le(a.skip(k), b.skip(k)),
    decreases k,
{
    if k > 0 {
        assert(a[0] == b[0]);
        assert forall|m: int| 0 <= m < k - 1 implies a.drop_first()[m] == b.drop_first()[m] by {
            assert(a[m + 1] == b[m + 1]);
        }
        lemma_lex_le_skip(a.drop_first(), b.drop_first(), k - 1);
        assert(a.drop_first().skip(k - 1) =~= a.skip(k));
        assert(b.drop_first().skip(k - 1) =~= b.skip(k));
    } else {
        assert(a.skip(0) =~= a);
        assert(b.skip(0) =~= b);
    }
}

/// The order on keys is transitive.
pub proof fn lemma_lex_trans(a: Seq<int>, b: Seq<int>, c: Seq<int>)
    requires
        lex_le(a, b),
        lex_le(b, c),
    ensures
        lex_le(a, c),
    decreases a.len(),
{
    if a.len() > 0 && b.len() > 0 && c.len() > 0 && a[0] == b[0] && b[0] == c[0] {
        lemma_lex_trans(a.drop_first(), b.drop_first(), c.drop_first());
    }
}

/// Every key comes no later than itself.
pub proof fn lemma_lex_refl(a: Seq<int>)
    ensures
        lex_le(a, a),
    decreases a.len(),
{
    if a.len() > 0 {
        lemma_lex_refl(a.drop_first());
    }
}

/// Whether `a` comes no later than `b` in lexicographic order.
pub fn lex_le_exec(a: &Vec<i128>, b: &Vec<i128>) -> (r: bool)
    ensures
        r == lex_le(key_ints(a@), key_ints(b@)),
{
    let mut i: usize = 0;
    while i < a.len() && i < b.len()
        invariant
            i <= a.len(),
            i <= b.len(),
            forall|j: int| 0 <= j < i ==> a@[j] == b@[j],
            lex_le(key_ints(a@), key_ints(b@)) == lex_le(
                key_ints(a@).skip(i as int),
                key_ints(b@).skip(i as int),
            ),
        decreases a.len() - i,
    {
        if a[i] < b[i] {
            return true;
        }
        if a[i] > b[i] {
            return false;
        }
        proof {
            let x = key_ints(a@).skip(i as int);
            let y = key_ints(b@).skip(i as int);
            assert(x.drop_first() =~= key_ints(a@).skip(i + 1));
            assert(y.drop_first() =~= key_ints(b@).skip(i + 1));
        }
        i = i + 1;
    }
    i == a.len()
}

/// The items of `items` in non-decreasing lexicographic order of their sort
/// keys; `keys[i]` is the key of `items[i]`, and `key` says how a key is
/// computed from an item. Items with equal keys may come in any order.
pub fn sort_by_keys<T>(items: Vec<T>, keys: Vec<Vec<i128>>, Ghost(key): Ghost<
    spec_fn(T) -> Seq<int>,
>) -> (r: Vec<T>)
    requires
        items.len() == keys.len(),
        forall|i: int| 0 <= i < items.len() ==> key_ints(#[trigger] keys@[i]@) == key(items@[i]),
    ensures
        r@.to_multiset() == items@.to_multiset(),
        r.len() == items.len(),
        sorted_by_key(r@, key),
{
    let mut rest = items;
    let mut rest_keys = keys;
    let mut out: Vec<T> = Vec::new();
    let ghost orig = rest@;
    while rest.len() > 0
        invariant
            rest.len() == rest_keys.len(),
            forall|i: int| 0 <= i < rest.len() ==> key_ints(#[trigger] rest_keys@[i]@) == key(rest@[i]),
            out@.to_multiset().add(rest@.to_multiset()) == orig.to_multiset(),
            sorted_by_key(out@, key),
            forall|i: int, j: int|
                0 <= i < out.len() && 0 <= j < rest.len() ==> lex_le(key(out@[i]), key(rest@[j])),
            out.len() + rest.len() == orig.len(),
        decreases rest.len(),
    {
        let mut best: usize = 0;
        let mut k: usize = 1;
        proof {
            lemma_lex_refl(key(rest@[0]));
        }
        while k < rest.len()
            invariant
                rest.len() == rest_keys.len(),
                forall|i: int| 0 <= i < rest.len() ==> key_ints(#[trigger] rest_keys@[i]@) == key(rest@[i]),
                0 <= best < rest.len(),
                1 <= k <= rest.len(),
                forall|j: int| 0 <= j < k ==> lex_le(key(rest@[best as int]), key(rest@[j])),
            decreases rest.len() - k,
        {
            let le = lex_le_exec(&rest_keys[best], &rest_keys[k]);
            if !le {
                proof {
                    lemma_lex_total(key(rest@[best as int]), key(rest@[k as int]));
                    assert forall|j: int| 0 <= j < k + 1 implies lex_le(
                        key(rest@[k as int]),
                        key(rest@[j]),
                    ) by {
                        if j < k {
                            lemma_lex_trans(
                                key(rest@[k as int]),
                                key(rest@[best as int]),
                                key(rest@[j]),
                            );
                        } else {
                            lemma_lex_refl(key(rest@[k as int]));
                        }
                    }
                }
                best = k;
            } else {
                proof {
                    assert(lex_le(key(rest@[best as int]), key(rest@[k as int])));
                }
            }
            k = k + 1;
        }
        let ghost old_rest = rest@;
        let ghost old_out = out@;
        let x = rest.remove(best);
        let _ = rest_keys.remove(best);
        out.push(x);
        proof {
            old_rest.to_multiset_ensures();
            old_out.to_multiset_ensures();
            assert(rest@ =~= old_rest.remove(best as int));
            assert(out@ =~= old_out.push(x));
            assert(out@.to_multiset().add(rest@.to_multiset()) =~= old_out.to_multiset().add(
                old_rest.to_multiset(),
            ));
            assert forall|i: int, j: int| 0 <= i < j < out.len() implies lex_le(
                key(out@[i]),
                key(out@[j]),
            ) by {
                if j == out.len() - 1 {
                    assert(out@[j] == old_rest[best as int]);
                } else {
                    assert(out@[i] == old_out[i]);
                    assert(out@[j] == old_out[j]);
                }
            }
            assert forall|i: int, j: int| 0 <= i < out.len() && 0 <= j < rest.len() implies lex_le(
                key(out@[i]),
                key(rest@[j]),
            ) by {
                let jj = if j < best {
                    j
                } else {
                    j + 1
                };
                assert(rest@[j] == old_rest[jj]);
                if i == out.len() - 1 {
                } else {
                    assert(out@[i] == old_out[i]);
                }
            }
            assert forall|i: int| 0 <= i < rest.len() implies key_ints(
                #[trigger] rest_keys@[i]@,
            ) == key(rest@[i]) by {
                let jj = if i < best {
                    i
                } else {
                    i + 1
                };
                assert(rest@[i] == old_rest[jj]);
            }
        }
    }
    proof {
        assert(rest@ =~= Seq::<T>::empty());
        rest@.to_multiset_ensures();
        assert(out@.to_multiset() =~= out@.to_multiset().add(rest@.to_multiset()));
    }
    out
}

} // verus!
