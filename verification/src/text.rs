//! Character-level string helpers with their mathematical meaning.
//!
//! Text is handled as sequences of `char`; every executable helper here is
//! tied to a spec function over `Seq<char>`.
use vstd::prelude::*;
use vstd::std_specs::iter::IteratorSpec;

verus! {

broadcast use vstd::string::group_string_axioms;

// ---------------------------------------------------------------------------
// Specifications
// ---------------------------------------------------------------------------
/// Unicode `White_Space`, the property that `char::is_whitespace` tests.
pub open spec fn is_ws(c: char) -> bool {
    ||| ('\u{9}' <= c && c <= '\u{d}')
    ||| c == ' '
    ||| c == '\u{85}'
    ||| c == '\u{a0}'
    ||| c == '\u{1680}'
    ||| ('\u{2000}' <= c && c <= '\u{200a}')
    ||| c == '\u{2028}'
    ||| c == '\u{2029}'
    ||| c == '\u{202f}'
    ||| c == '\u{205f}'
    ||| c == '\u{3000}'
}

/// `p` occurs in `s` starting at position `i`.
pub open spec fn occurs_at(s: Seq<char>, p: Seq<char>, i: int) -> bool {
    0 <= i && i + p.len() <= s.len() && s.subrange(i, i + p.len()) == p
}

/// `p` is a substring of `s`.
pub open spec fn contains_sub(s: Seq<char>, p: Seq<char>) -> bool {
    exists|i: int| occurs_at(s, p, i)
}

/// `s` with the prefix `p` removed, if `s` starts with `p`.
pub open spec fn strip_prefix(s: Seq<char>, p: Seq<char>) -> Option<Seq<char>> {
    if p.is_prefix_of(s) {
        Some(s.skip(p.len() as int))
    } else {
        None
    }
}

/// Position of the first occurrence of `c` in `s`.
pub open spec fn first_pos(s: Seq<char>, c: char) -> Option<int>
    decreases s.len(),
{
    if s.len() == 0 {
        None
    } else if s.last() == c {
        match first_pos(s.drop_last(), c) {
            Some(i) => Some(i),
            None => Some(s.len() - 1),
        }
    } else {
        first_pos(s.drop_last(), c)
    }
}

/// Position of the last occurrence of `c` in `s`.
pub open spec fn last_pos(s: Seq<char>, c: char) -> Option<int>
    decreases s.len(),
{
    if s.len() == 0 {
        None
    } else if s.last() == c {
        Some(s.len() - 1)
    } else {
        last_pos(s.drop_last(), c)
    }
}

/// The part of `s` before the first `c` (all of `s` when there is none):
/// the first piece that `str::split(c)` yields.
pub open spec fn before_first(s: Seq<char>, c: char) -> Seq<char> {
    match first_pos(s, c) {
        Some(i) => s.take(i),
        None => s,
    }
}

/// `s` without the whitespace at its start.
pub open spec fn trim_start(s: Seq<char>) -> Seq<char>
    decreases s.len(),
{
    if s.len() > 0 && is_ws(s[0]) {
        trim_start(s.drop_first())
    } else {
        s
    }
}

/// `s` without the whitespace at its end.
pub open spec fn trim_end(s: Seq<char>) -> Seq<char>
    decreases s.len(),
{
    if s.len() > 0 && is_ws(s.last()) {
        trim_end(s.drop_last())
    } else {
        s
    }
}

/// `s` without leading and trailing whitespace, as `str::trim` gives it.
pub open spec fn trim(s: Seq<char>) -> Seq<char> {
    trim_end(trim_start(s))
}

/// `s` without any trailing `c`.
pub open spec fn trim_end_char(s: Seq<char>, c: char) -> Seq<char>
    decreases s.len(),
{
    if s.len() > 0 && s.last() == c {
        trim_end_char(s.drop_last(), c)
    } else {
        s
    }
}

/// The pieces of `s` between occurrences of `c`, empty pieces included, as
/// `str::split(c)` yields them.
pub open spec fn split_on(s: Seq<char>, c: char) -> Seq<Seq<char>>
    decreases s.len(),
{
    if s.len() == 0 {
        seq![Seq::<char>::empty()]
    } else {
        let prev = split_on(s.drop_last(), c);
        if s.last() == c {
            prev.push(Seq::<char>::empty())
        } else {
            prev.update(prev.len() - 1, prev.last().push(s.last()))
        }
    }
}

/// The maximal runs of non-whitespace characters of `s`, as
/// `str::split_whitespace` yields them.
pub open spec fn words(s: Seq<char>) -> Seq<Seq<char>>
    decreases s.len(),
{
    if s.len() == 0 {
        Seq::empty()
    } else {
        let prev = words(s.drop_last());
        let c = s.last();
        if is_ws(c) {
            prev
        } else if s.len() >= 2 && !is_ws(s[s.len() - 2]) {
            prev.update(prev.len() - 1, prev.last().push(c))
        } else {
            prev.push(seq![c])
        }
    }
}

/// The pieces of `ws` joined with `sep` between them.
pub open spec fn join(ws: Seq<Seq<char>>, sep: Seq<char>) -> Seq<char>
    decreases ws.len(),
{
    if ws.len() == 0 {
        Seq::empty()
    } else if ws.len() == 1 {
        ws[0]
    } else {
        join(ws.drop_last(), sep) + sep + ws.last()
    }
}

/// The character sequences held by a vector of character vectors.
pub open spec fn char_views(v: Seq<Vec<char>>) -> Seq<Seq<char>> {
    v.map_values(|w: Vec<char>| w@)
}

/// The words of `s` joined by single spaces.
pub open spec fn squash_ws(s: Seq<char>) -> Seq<char> {
    join(words(s), seq![' '])
}

/// Number of bytes of the UTF-8 encoding of `c`.
pub open spec fn utf8_width(c: char) -> nat {
    if (c as u32) < 0x80 {
        1
    } else if (c as u32) < 0x800 {
        2
    } else if (c as u32) < 0x10000 {
        3
    } else {
        4
    }
}

/// Number of bytes of the UTF-8 encoding of `s`, what `str::len` returns.
pub open spec fn utf8_len(s: Seq<char>) -> nat
    decreases s.len(),
{
    if s.len() == 0 {
        0
    } else {
        utf8_len(s.drop_last()) + utf8_width(s.last())
    }
}

/// Lexicographic order on character sequences by code point, the order of
/// `str::cmp` (UTF-8 keeps code point order).
pub open spec fn chars_lt(a: Seq<char>, b: Seq<char>) -> bool
    decreases a.len(),
{
    if a.len() == 0 {
        b.len() > 0
    } else if b.len() == 0 {
        false
    } else if a[0] != b[0] {
        (a[0] as u32) < (b[0] as u32)
    } else {
        chars_lt(a.drop_first(), b.drop_first())
    }
}

/// Decimal digits of `n`.
pub open spec fn dec_nat(n: nat) -> Seq<char>
    decreases n,
{
    if n < 10 {
        seq![digit_char(n)]
    } else {
        dec_nat(n / 10).push(digit_char(n % 10))
    }
}

/// The ASCII digit for `d < 10`.
pub open spec fn digit_char(d: nat) -> char {
    ((d + 48) as u8) as char
}

/// Decimal form of an integer, with a leading `-` for negatives, as
/// `Display` writes integers.
pub open spec fn dec_int(i: int) -> Seq<char> {
    if i < 0 {
        seq!['-'] + dec_nat((-i) as nat)
    } else {
        dec_nat(i as nat)
    }
}

/// What `str::to_lowercase` returns for `s`: the Unicode lowercase mapping.
pub uninterp spec fn lowercase(s: Seq<char>) -> Seq<char>;

/// Whether `char::is_alphanumeric` holds of `c` (Unicode `Alphabetic` or
/// `Numeric`).
pub uninterp spec fn alphanumeric(c: char) -> bool;

/// What `char::to_uppercase` yields for `c`: its Unicode uppercase mapping.
pub uninterp spec fn uppercase_of(c: char) -> Seq<char>;

/// `s` lowercased, with its words joined by single spaces.
pub open spec fn fold_text(s: Seq<char>) -> Seq<char> {
    squash_ws(lowercase(s))
}

// ---------------------------------------------------------------------------
// Lemmas
// ---------------------------------------------------------------------------
/// `first_pos` finds the first occurrence, or reports that there is none.
pub proof fn lemma_first_pos(s: Seq<char>, c: char)
    ensures
        match first_pos(s, c) {
            Some(i) => 0 <= i < s.len() && s[i] == c && forall|j: int| 0 <= j < i ==> s[j] != c,
            None => forall|j: int| 0 <= j < s.len() ==> s[j] != c,
        },
    decreases s.len(),
{
    if s.len() > 0 {
        let d = s.drop_last();
        lemma_first_pos(d, c);
        assert(forall|j: int| 0 <= j < d.len() ==> d[j] == s[j]);
    }
}

/// `last_pos` finds the last occurrence, or reports that there is none.
pub proof fn lemma_last_pos(s: Seq<char>, c: char)
    ensures
        match last_pos(s, c) {
            Some(i) => 0 <= i < s.len() && s[i] == c && forall|j: int| i < j < s.len() ==> s[j]
                != c,
            None => forall|j: int| 0 <= j < s.len() ==> s[j] != c,
        },
    decreases s.len(),
{
    if s.len() > 0 {
        let d = s.drop_last();
        lemma_last_pos(d, c);
        assert(forall|j: int| 0 <= j < d.len() ==> d[j] == s[j]);
    }
}

/// Splitting always yields at least one piece.
pub proof fn lemma_split_on_len(s: Seq<char>, c: char)
    ensures
        split_on(s, c).len() >= 1,
    decreases s.len(),
{
    if s.len() > 0 {
        lemma_split_on_len(s.drop_last(), c);
    }
}

/// Words are never empty, and text ending in a non-space has a word.
pub proof fn lemma_words_nonempty(s: Seq<char>)
    ensures
        forall|k: int| 0 <= k < words(s).len() ==> #[trigger] words(s)[k].len() > 0,
        s.len() > 0 && !is_ws(s.last()) ==> words(s).len() > 0,
    decreases s.len(),
{
    if s.len() > 0 {
        lemma_words_nonempty(s.drop_last());
        let prev = s.drop_last();
        if s.len() >= 2 && !is_ws(s[s.len() - 2]) {
            assert(prev.last() == s[s.len() - 2]);
        }
    }
}

/// Joining one more piece appends the separator and the piece.
pub proof fn lemma_join_push(ws: Seq<Seq<char>>, sep: Seq<char>, w: Seq<char>)
    ensures
        join(ws.push(w), sep) == if ws.len() == 0 {
            w
        } else {
            join(ws, sep) + sep + w
        },
{
    assert(ws.push(w).drop_last() =~= ws);
}

/// Extending the last piece extends the joined text.
pub proof fn lemma_join_extend_last(ws: Seq<Seq<char>>, sep: Seq<char>, c: char)
    requires
        ws.len() > 0,
    ensures
        join(ws.update(ws.len() - 1, ws.last().push(c)), sep) == join(ws, sep).push(c),
{
    let ws2 = ws.update(ws.len() - 1, ws.last().push(c));
    if ws.len() == 1 {
    } else {
        assert(ws2.drop_last() =~= ws.drop_last());
        assert((join(ws.drop_last(), sep) + sep + ws.last()).push(c) =~= join(ws.drop_last(), sep)
            + sep + ws.last().push(c));
    }
}

/// A decimal numeral has at least one digit, and only digits.
pub proof fn lemma_dec_nat_digits(n: nat)
    ensures
        dec_nat(n).len() >= 1,
        forall|k: int| 0 <= k < dec_nat(n).len() ==> '0' <= #[trigger] dec_nat(n)[k] <= '9',
    decreases n,
{
    if n >= 10 {
        lemma_dec_nat_digits(n / 10);
    }
}

// ---------------------------------------------------------------------------
// Executable helpers
// ---------------------------------------------------------------------------
/// The pieces of `s` between occurrences of `c` (`str::split(c)`).
pub fn split_chars(s: &Vec<char>, c: char) -> (r: Vec<Vec<char>>)
    ensures
        char_views(r@) == split_on(s@, c),
{
    let mut done: Vec<Vec<char>> = Vec::new();
    let mut cur: Vec<char> = Vec::new();
    let mut i: usize = 0;
    while i < s.len()
        invariant
            i <= s.len(),
            char_views(done@).push(cur@) == split_on(s@.take(i as int), c),
        decreases s.len() - i,
    {
        let d = s[i];
        proof {
            assert(s@.take(i + 1).drop_last() =~= s@.take(i as int));
            assert(s@.take(i + 1).last() == d);
        }
        let ghost prev = split_on(s@.take(i as int), c);
        if d == c {
            let piece = cur;
            done.push(piece);
            cur = Vec::new();
            proof {
                assert(char_views(done@).push(cur@) =~= prev.push(Seq::<char>::empty()));
            }
        } else {
            cur.push(d);
            proof {
                assert(char_views(done@).push(cur@) =~= prev.update(
                    prev.len() - 1,
                    prev.last().push(d),
                ));
            }
        }
        i = i + 1;
    }
    done.push(cur);
    assert(s@.take(s.len() as int) =~= s@);
    done
}

/// The characters of `s`, in order.
pub fn str_chars(s: &str) -> (v: Vec<char>)
    ensures
        v@ == s@,
{
    let mut v: Vec<char> = Vec::new();
    for c in it: s.chars()
        invariant
            v@ == it.seq().take(it.index() as int),
    {
        v.push(c);
    }
    v
}

/// `str::to_lowercase`. The result is the Unicode lowercase mapping of `s`,
/// named `lowercase`; the mapping tables are not written out.
#[verifier::external_body]
pub(crate) fn to_lowercase(s: &str) -> (r: String)
    ensures
        r@ == lowercase(s@),
{
    s.to_lowercase()
}

/// `char::is_alphanumeric`, named `alphanumeric`; the Unicode tables are not
/// written out.
#[verifier::external_body]
pub(crate) fn is_alphanumeric(c: char) -> (b: bool)
    ensures
        b == alphanumeric(c),
{
    c.is_alphanumeric()
}

/// `char::to_uppercase`, collected: the Unicode uppercase mapping of `c`,
/// named `uppercase_of`; the tables are not written out.
#[verifier::external_body]
pub(crate) fn to_uppercase(c: char) -> (r: Vec<char>)
    ensures
        r@ == uppercase_of(c),
{
    c.to_uppercase().collect()
}

/// Appends `c` to `s` (`String::push`).
#[verifier::external_body]
pub(crate) fn push_char(s: &mut String, c: char)
    ensures
        final(s)@ == old(s)@.push(c),
{
    s.push(c);
}

/// Appends `t` to `s`.
pub fn push_str(s: &mut String, t: &str)
    ensures
        final(s)@ == old(s)@ + t@,
{
    s.append(t);
}

/// Appends the characters `v` to `s`.
pub fn push_chars(s: &mut String, v: &Vec<char>)
    ensures
        final(s)@ == old(s)@ + v@,
{
    let ghost s0 = s@;
    let mut i: usize = 0;
    while i < v.len()
        invariant
            i <= v.len(),
            s@ == s0 + v@.take(i as int),
        decreases v.len() - i,
    {
        push_char(s, v[i]);
        i = i + 1;
        assert(s0 + v@.take(i as int) =~= (s0 + v@.take((i - 1) as int)).push(v@[i - 1]));
    }
    assert(v@.take(v.len() as int) =~= v@);
}

/// A string holding the characters `v`.
pub fn string_of(v: &Vec<char>) -> (s: String)
    ensures
        s@ == v@,
{
    let mut s = String::new();
    push_chars(&mut s, v);
    assert(Seq::<char>::empty() + v@ =~= v@);
    s
}

/// An owned copy of `s`.
pub fn owned(s: &str) -> (r: String)
    ensures
        r@ == s@,
{
    s.to_owned()
}

/// Concatenation of two strings.
pub fn concat2(a: &str, b: &str) -> (r: String)
    ensures
        r@ == a@ + b@,
{
    let mut r = a.to_owned();
    r.append(b);
    r
}

/// Concatenation of three strings.
pub fn concat3(a: &str, b: &str, c: &str) -> (r: String)
    ensures
        r@ == a@ + b@ + c@,
{
    let mut r = a.to_owned();
    r.append(b);
    r.append(c);
    r
}

/// Whether `c` is whitespace (`char::is_whitespace`).
pub fn is_whitespace_char(c: char) -> (b: bool)
    ensures
        b == is_ws(c),
{
    ('\u{9}' <= c && c <= '\u{d}') || c == ' ' || c == '\u{85}' || c == '\u{a0}' || c
        == '\u{1680}' || ('\u{2000}' <= c && c <= '\u{200a}') || c == '\u{2028}' || c
        == '\u{2029}' || c == '\u{202f}' || c == '\u{205f}' || c == '\u{3000}'
}

/// Whether `s` and `t` hold the same characters.
pub fn chars_eq(s: &Vec<char>, t: &Vec<char>) -> (b: bool)
    ensures
        b == (s@ == t@),
{
    if s.len() != t.len() {
        return false;
    }
    let mut i: usize = 0;
    while i < s.len()
        invariant
            s.len() == t.len(),
            i <= s.len(),
            forall|j: int| 0 <= j < i ==> s@[j] == t@[j],
        decreases s.len() - i,
    {
        if s[i] != t[i] {
            return false;
        }
        i = i + 1;
    }
    assert(s@ =~= t@);
    true
}

/// Whether `p` occurs in `s` at position `i`.
pub fn occurs_at_exec(s: &Vec<char>, p: &Vec<char>, i: usize) -> (b: bool)
    ensures
        b == occurs_at(s@, p@, i as int),
{
    if i > s.len() || p.len() > s.len() - i {
        return false;
    }
    let mut k: usize = 0;
    while k < p.len()
        invariant
            i + p.len() <= s.len(),
            k <= p.len(),
            forall|j: int| 0 <= j < k ==> s@[i + j] == p@[j],
        decreases p.len() - k,
    {
        if s[i + k] != p[k] {
            assert(s@.subrange(i as int, i + p.len())[k as int] != p@[k as int]);
            return false;
        }
        k = k + 1;
    }
    assert(s@.subrange(i as int, i + p.len()) =~= p@);
    true
}

/// Whether `s` starts with `p`.
pub fn starts_with(s: &Vec<char>, p: &Vec<char>) -> (b: bool)
    ensures
        b == p@.is_prefix_of(s@),
{
    let b = occurs_at_exec(s, p, 0);
    if b {
        assert(p@ =~= s@.subrange(0, p@.len() as int));
    }
    b
}

/// Whether `s` ends with `p`.
pub fn ends_with(s: &Vec<char>, p: &Vec<char>) -> (b: bool)
    ensures
        b == p@.is_suffix_of(s@),
{
    if p.len() > s.len() {
        return false;
    }
    occurs_at_exec(s, p, s.len() - p.len())
}

/// Whether `p` is a substring of `s`.
pub fn contains(s: &Vec<char>, p: &Vec<char>) -> (b: bool)
    ensures
        b == contains_sub(s@, p@),
{
    if p.len() > s.len() {
        return false;
    }
    let last = s.len() - p.len();
    let mut i: usize = 0;
    loop
        invariant
            p.len() <= s.len(),
            last == s.len() - p.len(),
            i <= last,
            forall|j: int| 0 <= j < i ==> !occurs_at(s@, p@, j),
        decreases last - i,
    {
        if occurs_at_exec(s, p, i) {
            return true;
        }
        if i == last {
            assert forall|j: int| !occurs_at(s@, p@, j) by {
                if 0 <= j <= last {
                    assert(j < i || j == i);
                }
            }
            return false;
        }
        i = i + 1;
    }
}

/// The part of `s` in `[from, to)`.
pub fn slice_chars(s: &Vec<char>, from: usize, to: usize) -> (r: Vec<char>)
    requires
        from <= to <= s.len(),
    ensures
        r@ == s@.subrange(from as int, to as int),
{
    let mut r: Vec<char> = Vec::new();
    let mut i: usize = from;
    while i < to
        invariant
            from <= i <= to <= s.len(),
            r@ == s@.subrange(from as int, i as int),
        decreases to - i,
    {
        r.push(s[i]);
        i = i + 1;
        assert(r@ =~= s@.subrange(from as int, i as int));
    }
    r
}

/// `s` with the prefix `p` removed, if `s` starts with `p`.
pub fn strip_prefix_exec(s: &Vec<char>, p: &Vec<char>) -> (r: Option<Vec<char>>)
    ensures
        r matches Some(v) ==> strip_prefix(s@, p@) == Some(v@),
        r is None ==> strip_prefix(s@, p@) is None,
{
    if starts_with(s, p) {
        Some(slice_chars(s, p.len(), s.len()))
    } else {
        None
    }
}

/// Position of the first `c` in `s`.
pub fn find_char(s: &Vec<char>, c: char) -> (r: Option<usize>)
    ensures
        r matches Some(i) ==> first_pos(s@, c) == Some(i as int),
        r is None ==> first_pos(s@, c) is None,
{
    let mut i: usize = 0;
    while i < s.len()
        invariant
            i <= s.len(),
            forall|j: int| 0 <= j < i ==> s@[j] != c,
        decreases s.len() - i,
    {
        if s[i] == c {
            proof {
                lemma_first_pos(s@, c);
                if let Some(k) = first_pos(s@, c) {
                    assert(k == i);
                }
            }
            return Some(i);
        }
        i = i + 1;
    }
    proof {
        lemma_first_pos(s@, c);
    }
    None
}

/// Position of the last `c` in `s`.
pub fn rfind_char(s: &Vec<char>, c: char) -> (r: Option<usize>)
    ensures
        r matches Some(i) ==> last_pos(s@, c) == Some(i as int),
        r is None ==> last_pos(s@, c) is None,
{
    let mut i: usize = s.len();
    while i > 0
        invariant
            i <= s.len(),
            forall|j: int| i <= j < s.len() ==> s@[j] != c,
        decreases i,
    {
        if s[i - 1] == c {
            proof {
                lemma_last_pos(s@, c);
                if let Some(k) = last_pos(s@, c) {
                    assert(k == i - 1);
                }
            }
            return Some(i - 1);
        }
        i = i - 1;
    }
    proof {
        lemma_last_pos(s@, c);
    }
    None
}

/// The part of `s` before the first `c`.
pub fn before_first_exec(s: &Vec<char>, c: char) -> (r: Vec<char>)
    ensures
        r@ == before_first(s@, c),
{
    match find_char(s, c) {
        Some(i) => {
            proof {
                lemma_first_pos(s@, c);
            }
            slice_chars(s, 0, i)
        },
        None => {
            let r = slice_chars(s, 0, s.len());
            assert(r@ =~= s@);
            r
        },
    }
}

proof fn lemma_trim_start_skip(s: Seq<char>, i: int)
    requires
        0 <= i <= s.len(),
        forall|j: int| 0 <= j < i ==> is_ws(s[j]),
    ensures
        trim_start(s) == trim_start(s.skip(i)),
    decreases i,
{
    if i > 0 {
        assert(s.drop_first().skip(i - 1) =~= s.skip(i));
        lemma_trim_start_skip(s.drop_first(), i - 1);
    } else {
        assert(s.skip(0) =~= s);
    }
}

proof fn lemma_trim_end_take(s: Seq<char>, i: int)
    requires
        0 <= i <= s.len(),
        forall|j: int| i <= j < s.len() ==> is_ws(s[j]),
    ensures
        trim_end(s) == trim_end(s.take(i)),
    decreases s.len() - i,
{
    if i < s.len() {
        assert(s.drop_last().take(i) =~= s.take(i));
        lemma_trim_end_take(s.drop_last(), i);
    } else {
        assert(s.take(i) =~= s);
    }
}

/// `s` without leading and trailing whitespace (`str::trim`).
pub fn trim_exec(s: &Vec<char>) -> (r: Vec<char>)
    ensures
        r@ == trim(s@),
{
    let mut a: usize = 0;
    while a < s.len() && is_whitespace_char(s[a])
        invariant
            a <= s.len(),
            forall|j: int| 0 <= j < a ==> is_ws(s@[j]),
        decreases s.len() - a,
    {
        a = a + 1;
    }
    let mut b: usize = s.len();
    while b > a && is_whitespace_char(s[b - 1])
        invariant
            a <= b <= s.len(),
            forall|j: int| b <= j < s.len() ==> is_ws(s@[j]),
        decreases b,
    {
        b = b - 1;
    }
    let r = slice_chars(s, a, b);
    proof {
        lemma_trim_start_skip(s@, a as int);
        let t = s@.skip(a as int);
        assert(a == s.len() || !is_ws(t[0]));
        assert(trim_start(t) == t);
        lemma_trim_end_take(t, (b - a) as int);
        assert(t.take((b - a) as int) =~= s@.subrange(a as int, b as int));
        assert(b == a || !is_ws(s@[b - 1]));
    }
    r
}

/// `s` without any trailing `c`.
pub fn trim_end_char_exec(s: &Vec<char>, c: char) -> (r: Vec<char>)
    ensures
        r@ == trim_end_char(s@, c),
{
    let mut b: usize = s.len();
    assert(s@.take(s.len() as int) =~= s@);
    while b > 0 && s[b - 1] == c
        invariant
            b <= s.len(),
            trim_end_char(s@, c) == trim_end_char(s@.take(b as int), c),
        decreases b,
    {
        proof {
            let t = s@.take(b as int);
            assert(t.drop_last() =~= s@.take(b - 1));
            assert(t.last() == c);
        }
        b = b - 1;
    }
    let r = slice_chars(s, 0, b);
    assert(r@ =~= s@.take(b as int));
    r
}

proof fn lemma_words_step(s: Seq<char>, i: int)
    requires
        0 <= i < s.len(),
    ensures
        s.take(i + 1).drop_last() == s.take(i),
        s.take(i + 1).last() == s[i],
        i >= 1 ==> s.take(i + 1)[i - 1] == s[i - 1],
{
    assert(s.take(i + 1).drop_last() =~= s.take(i));
}

/// The words of `v` joined by single spaces (`split_whitespace` then
/// `join(" ")`).
pub fn squash_whitespace(v: &Vec<char>) -> (r: Vec<char>)
    ensures
        r@ == squash_ws(v@),
{
    let mut out: Vec<char> = Vec::new();
    let mut have_word = false;
    let mut i: usize = 0;
    while i < v.len()
        invariant
            i <= v.len(),
            out@ == join(words(v@.take(i as int)), seq![' ']),
            have_word == (words(v@.take(i as int)).len() > 0),
        decreases v.len() - i,
    {
        let c = v[i];
        proof {
            lemma_words_step(v@, i as int);
        }
        let ghost prev = words(v@.take(i as int));
        if is_whitespace_char(c) {
        } else if i >= 1 && !is_whitespace_char(v[i - 1]) {
            proof {
                lemma_words_nonempty(v@.take(i as int));
                assert(v@.take(i as int).last() == v@[i - 1]);
                lemma_join_extend_last(prev, seq![' '], c);
            }
            out.push(c);
        } else {
            proof {
                lemma_join_push(prev, seq![' '], seq![c]);
            }
            if have_word {
                out.push(' ');
            }
            out.push(c);
            have_word = true;
            proof {
                if prev.len() == 0 {
                    assert(out@ =~= seq![c]);
                } else {
                    assert(out@ =~= join(prev, seq![' ']) + seq![' '] + seq![c]);
                }
            }
        }
        i = i + 1;
    }
    assert(v@.take(v.len() as int) =~= v@);
    out
}

/// `fold_text`: lowercase, then words joined by single spaces.
pub fn fold_text_exec(s: &str) -> (r: Vec<char>)
    ensures
        r@ == fold_text(s@),
{
    let lowered = to_lowercase(s);
    let chars = str_chars(lowered.as_str());
    squash_whitespace(&chars)
}

/// Decimal digits of `n`.
pub fn u64_to_dec(n: u64) -> (r: Vec<char>)
    ensures
        r@ == dec_nat(n as nat),
    decreases n,
{
    if n < 10 {
        let d = ((n as u8) + 48) as char;
        let mut r = Vec::new();
        r.push(d);
        assert(r@ =~= seq![digit_char(n as nat)]);
        r
    } else {
        let mut r = u64_to_dec(n / 10);
        let d = (((n % 10) as u8) + 48) as char;
        r.push(d);
        r
    }
}

/// Decimal form of `n`.
pub fn usize_to_string(n: usize) -> (r: String)
    ensures
        r@ == dec_int(n as int),
{
    string_of(&u64_to_dec(n as u64))
}

/// Decimal form of `n`, with a leading `-` for negatives.
pub fn i64_to_string(n: i64) -> (r: String)
    ensures
        r@ == dec_int(n as int),
{
    if n < 0 {
        let m: u64 = if n == i64::MIN {
            9223372036854775808u64
        } else {
            (-n) as u64
        };
        let mut r = String::new();
        push_char(&mut r, '-');
        let digits = u64_to_dec(m);
        push_chars(&mut r, &digits);
        assert(r@ =~= seq!['-'] + dec_nat((-(n as int)) as nat));
        r
    } else {
        string_of(&u64_to_dec(n as u64))
    }
}

} // verus!

verus! {

/// `w` is a word: not empty, and without whitespace.
pub open spec fn is_word(w: Seq<char>) -> bool {
    w.len() > 0 && forall|k: int| 0 <= k < w.len() ==> !is_ws(#[trigger] w[k])
}

proof fn lemma_words_of_words(s: Seq<char>)
    ensures
        forall|k: int| 0 <= k < words(s).len() ==> is_word(#[trigger] words(s)[k]),
    decreases s.len(),
{
    if s.len() > 0 {
        lemma_words_of_words(s.drop_last());
        let prev = words(s.drop_last());
        let c = s.last();
        if !is_ws(c) && s.len() >= 2 && !is_ws(s[s.len() - 2]) {
            lemma_words_nonempty(s.drop_last());
            assert(s.drop_last().last() == s[s.len() - 2]);
            let w = prev.last().push(c);
            assert(is_word(prev[prev.len() - 1]));
            assert forall|k: int| 0 <= k < w.len() implies !is_ws(#[trigger] w[k]) by {
                if k < w.len() - 1 {
                    assert(w[k] == prev.last()[k]);
                }
            }
            assert forall|k: int| 0 <= k < words(s).len() implies is_word(#[trigger] words(s)[k]) by {
                if k < prev.len() - 1 {
                    assert(words(s)[k] == prev[k]);
                } else {
                    assert(words(s)[k] == w);
                }
            }
        } else if !is_ws(c) {
            assert(is_word(seq![c]));
            assert forall|k: int| 0 <= k < words(s).len() implies is_word(#[trigger] words(s)[k]) by {
                if k < prev.len() {
                    assert(words(s)[k] == prev[k]);
                }
            }
        }
    }
}

proof fn lemma_words_append_word(x: Seq<char>, w: Seq<char>)
    requires
        x.len() == 0 || is_ws(x.last()),
        is_word(w),
    ensures
        words(x + w) == words(x).push(w),
    decreases w.len(),
{
    let s = x + w;
    assert(s.last() == w.last());
    if w.len() == 1 {
        assert(s.drop_last() =~= x);
        assert(seq![w.last()] =~= w);
        if s.len() >= 2 {
            assert(s[s.len() - 2] == x.last());
        }
    } else {
        let w1 = w.drop_last();
        assert(is_word(w1)) by {
            assert forall|k: int| 0 <= k < w1.len() implies !is_ws(#[trigger] w1[k]) by {
                assert(w1[k] == w[k]);
            }
        }
        lemma_words_append_word(x, w1);
        assert(s.drop_last() =~= x + w1);
        assert(s[s.len() - 2] == w[w.len() - 2]);
        assert(!is_ws(w[w.len() - 2]));
        assert(!is_ws(w.last()));
        assert(w1.push(w.last()) =~= w);
        assert(words(x).push(w1).update(words(x).len() as int, w1.push(w.last())) =~= words(x).push(w));
    }
}

proof fn lemma_words_of_join(ws: Seq<Seq<char>>)
    requires
        forall|k: int| 0 <= k < ws.len() ==> is_word(#[trigger] ws[k]),
    ensures
        words(join(ws, seq![' '])) == ws,
    decreases ws.len(),
{
    if ws.len() == 1 {
        lemma_words_append_word(Seq::empty(), ws[0]);
        assert(Seq::<char>::empty() + ws[0] =~= ws[0]);
        assert(Seq::<Seq<char>>::empty().push(ws[0]) =~= ws);
    } else if ws.len() > 1 {
        let d = ws.drop_last();
        assert forall|k: int| 0 <= k < d.len() implies is_word(#[trigger] d[k]) by {
            assert(d[k] == ws[k]);
        }
        lemma_words_of_join(d);
        let x = join(d, seq![' ']) + seq![' '];
        assert(x.drop_last() =~= join(d, seq![' ']));
        assert(is_ws(x.last()));
        assert(words(x) == words(join(d, seq![' '])));
        assert(is_word(ws.last()));
        lemma_words_append_word(x, ws.last());
        assert(join(ws, seq![' ']) == x + ws.last());
        assert(d.push(ws.last()) =~= ws);
    }
}

/// Squashing whitespace twice gives the same text as squashing it once, so a
/// normalized query normalizes to itself.
pub proof fn lemma_squash_ws_idempotent(s: Seq<char>)
    ensures
        squash_ws(squash_ws(s)) == squash_ws(s),
{
    lemma_words_of_words(s);
    lemma_words_of_join(words(s));
}


/// `r` is whitespace-normalized: its only whitespace is single spaces, each
/// between two non-whitespace characters, so it has no leading, trailing or
/// doubled whitespace.
pub open spec fn is_squashed(r: Seq<char>) -> bool {
    forall|i: int|
        0 <= i < r.len() && is_ws(#[trigger] r[i]) ==> r[i] == ' ' && 0 < i && i + 1 < r.len()
            && !is_ws(r[i - 1]) && !is_ws(r[i + 1])
}

proof fn lemma_join_words_squashed(ws: Seq<Seq<char>>)
    requires
        forall|k: int| 0 <= k < ws.len() ==> is_word(#[trigger] ws[k]),
    ensures
        is_squashed(join(ws, seq![' '])),
        ws.len() > 0 ==> join(ws, seq![' ']).len() > 0,
    decreases ws.len(),
{
    if ws.len() == 1 {
        assert(is_word(ws[0]));
    } else if ws.len() > 1 {
        let d = ws.drop_last();
        assert forall|k: int| 0 <= k < d.len() implies is_word(#[trigger] d[k]) by {
            assert(d[k] == ws[k]);
        }
        lemma_join_words_squashed(d);
        let j = join(d, seq![' ']);
        let w = ws.last();
        assert(is_word(w));
        let r = join(ws, seq![' ']);
        assert(r == j + seq![' '] + w);
        let n = j.len() as int;
        assert(!is_ws(j[n - 1]));
        assert forall|i: int| 0 <= i < r.len() && is_ws(#[trigger] r[i]) implies r[i] == ' ' && 0 < i
            && i + 1 < r.len() && !is_ws(r[i - 1]) && !is_ws(r[i + 1]) by {
            if i < n {
                assert(r[i] == j[i]);
                assert(is_ws(j[i]));
                assert(r[i - 1] == j[i - 1]);
                assert(r[i + 1] == j[i + 1]);
            } else if i == n {
                assert(r[i - 1] == j[n - 1]);
                assert(r[i + 1] == w[0]);
            } else {
                assert(r[i] == w[i - n - 1]);
            }
        }
    }
}

/// A whitespace-normalized query has no leading, trailing or doubled
/// whitespace: its only whitespace is single spaces between words.
pub proof fn lemma_squash_ws_is_squashed(s: Seq<char>)
    ensures
        is_squashed(squash_ws(s)),
        squash_ws(s).len() > 0 ==> !is_ws(squash_ws(s)[0]) && !is_ws(squash_ws(s).last()),
{
    lemma_words_of_words(s);
    lemma_join_words_squashed(words(s));
    let r = squash_ws(s);
    if r.len() > 0 {
        if is_ws(r[0]) || is_ws(r[r.len() - 1]) {
            assert(false);
        }
    }
}

} // verus!
