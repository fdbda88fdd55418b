//! Character-level text operations on `&str`, each specified over the
//! string's view as a sequence of Unicode scalar values.

use vstd::prelude::*;

verus! {

/// The Unicode `White_Space` property: the characters that `str::trim`
/// removes from both ends of a string.
pub open spec fn is_white_space(c: char) -> bool {
    ||| ('\u{9}' <= c && c <= '\u{d}')
    ||| c == ' '
    ||| c == '\u{85}'
    ||| c == '\u{a0}'
    ||| c == '\u{1680}'
    ||| ('\u{2000}' <= c && c <= '\u{200a}')
    ||| c == '\u{2028}'
    ||| c == '\u{2029}'
    ||| c == '\u{202f}'
    ||| c == '\u{205f}'
    ||| c == '\u{3000}'
}

/// `s` with its leading white space removed.
pub open spec fn trim_start(s: Seq<char>) -> Seq<char>
    decreases s.len(),
{
    if s.len() > 0 && is_white_space(s[0]) {
        trim_start(s.drop_first())
    } else {
        s
    }
}

/// `s` with its trailing white space removed.
pub open spec fn trim_end(s: Seq<char>) -> Seq<char>
    decreases s.len(),
{
    if s.len() > 0 && is_white_space(s.last()) {
        trim_end(s.drop_last())
    } else {
        s
    }
}

/// `s` with white space removed from both ends.
pub open spec fn trim(s: Seq<char>) -> Seq<char> {
    trim_end(trim_start(s))
}

/// `p` occurs in `s` starting at position `i`.
pub open spec fn occurs_at(s: Seq<char>, p: Seq<char>, i: int) -> bool {
    &&& 0 <= i
    &&& i + p.len() <= s.len()
    &&& s.subrange(i, i + p.len()) == p
}

/// `s` begins with `p`.
pub open spec fn starts_with(s: Seq<char>, p: Seq<char>) -> bool {
    occurs_at(s, p, 0)
}

/// The first position at or after `i` where `p` occurs in `s`, if any.
pub open spec fn find_from(s: Seq<char>, p: Seq<char>, i: nat) -> Option<int>
    decreases s.len() - i,
{
    if i + p.len() > s.len() {
        None
    } else if p.len() == 0 {
        Some(i as int)
    } else if occurs_at(s, p, i as int) {
        Some(i as int)
    } else {
        find_from(s, p, i + 1)
    }
}

/// The first position where `p` occurs in `s`, if any.
pub open spec fn find(s: Seq<char>, p: Seq<char>) -> Option<int> {
    find_from(s, p, 0)
}

/// The part of `s` before the first `c`, or all of `s` where `c` does not
/// occur: the first piece of splitting `s` at `c`.
pub open spec fn before_char(s: Seq<char>, c: char) -> Seq<char> {
    match find(s, seq![c]) {
        Some(k) => s.take(k),
        None => s,
    }
}

/// Whether `c` is a white-space character in the sense of `is_white_space`.
pub fn is_white_space_char(c: char) -> (b: bool)
    ensures
        b == is_white_space(c),
{
    ('\u{9}' <= c && c <= '\u{d}') || c == ' ' || c == '\u{85}' || c == '\u{a0}' || c
        == '\u{1680}' || ('\u{2000}' <= c && c <= '\u{200a}') || c == '\u{2028}' || c
        == '\u{2029}' || c == '\u{202f}' || c == '\u{205f}' || c == '\u{3000}'
}

proof fn lemma_trim_start_step(s: Seq<char>, i: int)
    requires
        0 <= i < s.len(),
        is_white_space(s[i]),
    ensures
        trim_start(s.skip(i)) == trim_start(s.skip(i + 1)),
{
    assert(s.skip(i).drop_first() =~= s.skip(i + 1));
}

proof fn lemma_trim_end_step(s: Seq<char>, i: int, j: int)
    requires
        0 <= i < j <= s.len(),
        is_white_space(s[j - 1]),
    ensures
        trim_end(s.subrange(i, j)) == trim_end(s.subrange(i, j - 1)),
{
    assert(s.subrange(i, j).drop_last() =~= s.subrange(i, j - 1));
}

/// `s` with white space removed from both ends (`str::trim`).
pub fn trim_str(s: &str) -> (r: &str)
    ensures
        r@ == trim(s@),
{
    let n = s.unicode_len();
    let mut i: usize = 0;
    assert(s@.skip(0) =~= s@);
    while i < n
        invariant
            n == s@.len(),
            0 <= i <= n,
            trim_start(s@) == trim_start(s@.skip(i as int)),
        ensures
            i == n || !is_white_space(s@[i as int]),
        decreases n - i,
    {
        if !is_white_space_char(s.get_char(i)) {
            break;
        }
        proof {
            lemma_trim_start_step(s@, i as int);
        }
        i = i + 1;
    }
    assert(trim_start(s@) =~= s@.subrange(i as int, n as int)) by {
        if i == n {
            assert(s@.skip(i as int) =~= Seq::<char>::empty());
        }
        assert(s@.skip(i as int) =~= s@.subrange(i as int, n as int));
    }
    let mut j: usize = n;
    while j > i
        invariant
            n == s@.len(),
            0 <= i <= j <= n,
            trim(s@) == trim_end(s@.subrange(i as int, j as int)),
        ensures
            j == i || !is_white_space(s@[j - 1]),
        decreases j,
    {
        if !is_white_space_char(s.get_char(j - 1)) {
            break;
        }
        proof {
            lemma_trim_end_step(s@, i as int, j as int);
        }
        j = j - 1;
    }
    let r = s.substring_char(i, j);
    assert(trim(s@) =~= s@.subrange(i as int, j as int)) by {
        if i == j {
            assert(s@.subrange(i as int, j as int) =~= Seq::<char>::empty());
        } else {
            assert(s@.subrange(i as int, j as int).last() == s@[j - 1]);
        }
    }
    r
}

/// Whether `p` occurs in `s` at position `at`; `n` and `m` are the two
/// strings' lengths in characters.
fn occurs_at_str(s: &str, n: usize, p: &str, m: usize, at: usize) -> (b: bool)
    requires
        n == s@.len(),
        m == p@.len(),
    ensures
        b == occurs_at(s@, p@, at as int),
{
    if at > n || m > n - at {
        return false;
    }
    let mut k: usize = 0;
    while k < m
        invariant
            n == s@.len(),
            m == p@.len(),
            at + m <= n,
            0 <= k <= m,
            forall|t: int| 0 <= t < k ==> s@[at + t] == p@[t],
        decreases m - k,
    {
        if s.get_char(at + k) != p.get_char(k) {
            assert(s@.subrange(at as int, at + m)[k as int] != p@[k as int]);
            return false;
        }
        k = k + 1;
    }
    assert(s@.subrange(at as int, at + m) =~= p@);
    true
}

/// Whether `s` begins with `p` (`str::starts_with`).
pub fn starts_with_str(s: &str, p: &str) -> (b: bool)
    ensures
        b == starts_with(s@, p@),
{
    let n = s.unicode_len();
    let m = p.unicode_len();
    occurs_at_str(s, n, p, m, 0)
}

/// The first position, counted in characters, where `p` occurs in `s`
/// (`str::find`).
pub fn find_str(s: &str, p: &str) -> (r: Option<usize>)
    ensures
        match r {
            Some(k) => find(s@, p@) == Some(k as int) && occurs_at(s@, p@, k as int),
            None => find(s@, p@) is None,
        },
{
    let n = s.unicode_len();
    let m = p.unicode_len();
    if m > n {
        return None;
    }
    if m == 0 {
        assert(s@.subrange(0, 0) =~= p@);
        return Some(0);
    }
    let last = n - m;
    let mut i: usize = 0;
    loop
        invariant
            n == s@.len(),
            m == p@.len(),
            m > 0,
            last == n - m,
            0 <= i <= last,
            find(s@, p@) == find_from(s@, p@, i as nat),
        decreases last - i,
    {
        if occurs_at_str(s, n, p, m, i) {
            return Some(i);
        }
        assert(find_from(s@, p@, i as nat) == find_from(s@, p@, (i + 1) as nat));
        if i == last {
            assert(find_from(s@, p@, (i + 1) as nat) is None);
            return None;
        }
        i = i + 1;
    }
}

/// The part of `s` before the first `c`: the first piece that splitting
/// `s` at `c` gives (`str::split(c).next()`).
pub fn before_char_str(s: &str, c: char) -> (r: &str)
    ensures
        r@ == before_char(s@, c),
{
    let n = s.unicode_len();
    let mut i: usize = 0;
    while i < n
        invariant
            n == s@.len(),
            0 <= i <= n,
            forall|t: int| 0 <= t < i ==> s@[t] != c,
            find(s@, seq![c]) == find_from(s@, seq![c], i as nat),
        decreases n - i,
    {
        if s.get_char(i) == c {
            assert(s@.subrange(i as int, i + 1) =~= seq![c]);
            let r = s.substring_char(0, i);
            assert(r@ =~= s@.take(i as int));
            return r;
        }
        assert(s@.subrange(i as int, i + 1)[0] == s@[i as int]);
        i = i + 1;
    }
    let r = s.substring_char(0, n);
    assert(r@ =~= s@);
    r
}

} // verus!

verus! {

/// Whether `a` and `b` hold the same characters (`==` on `str`).
pub fn str_eq(a: &str, b: &str) -> (r: bool)
    ensures
        r == (a@ == b@),
{
    let n = a.unicode_len();
    let m = b.unicode_len();
    if n != m {
        return false;
    }
    let mut k: usize = 0;
    while k < n
        invariant
            n == a@.len(),
            m == b@.len(),
            n == m,
            0 <= k <= n,
            forall|t: int| 0 <= t < k ==> a@[t] == b@[t],
        decreases n - k,
    {
        if a.get_char(k) != b.get_char(k) {
            return false;
        }
        k = k + 1;
    }
    assert(a@ =~= b@);
    true
}

} // verus!

verus! {

/// Where `p` does not occur in `s` at any position from `i` on, it is not
/// found from `i`.
pub proof fn lemma_find_from_absent(s: Seq<char>, p: Seq<char>, i: nat)
    requires
        p.len() > 0,
        forall|k: int| i <= k ==> !#[trigger] occurs_at(s, p, k),
    ensures
        find_from(s, p, i) is None,
    decreases s.len() - i,
{
    if i + p.len() <= s.len() {
        lemma_find_from_absent(s, p, i + 1);
    }
}

/// Where `p` first occurs in `s` at `j`, counting from `i`, it is found
/// there.
pub proof fn lemma_find_from_first(s: Seq<char>, p: Seq<char>, i: nat, j: nat)
    requires
        p.len() > 0,
        i <= j,
        occurs_at(s, p, j as int),
        forall|k: int| i <= k < j ==> !#[trigger] occurs_at(s, p, k),
    ensures
        find_from(s, p, i) == Some(j as int),
    decreases j - i,
{
    if i < j {
        lemma_find_from_first(s, p, i + 1, j);
    }
}

/// Trimming the end of `a + b`, where `a` ends in a character that is not
/// white space, trims only `b`.
pub proof fn lemma_trim_end_concat(a: Seq<char>, b: Seq<char>)
    requires
        a.len() > 0,
        !is_white_space(a.last()),
    ensures
        trim_end(a + b) == a + trim_end(b),
    decreases b.len(),
{
    if b.len() == 0 {
        assert(a + b =~= a);
        assert(a + trim_end(b) =~= a);
    } else {
        assert((a + b).last() == b.last());
        if is_white_space(b.last()) {
            assert((a + b).drop_last() =~= a + b.drop_last());
            lemma_trim_end_concat(a, b.drop_last());
        }
    }
}

} // verus!

verus! {

/// Every character of `w` is white space.
pub open spec fn all_white_space(w: Seq<char>) -> bool {
    forall|i: int| 0 <= i < w.len() ==> #[trigger] is_white_space(w[i])
}

proof fn lemma_trim_start_ws_prefix(w: Seq<char>, s: Seq<char>)
    requires
        all_white_space(w),
    ensures
        trim_start(w + s) == trim_start(s),
    decreases w.len(),
{
    if w.len() == 0 {
        assert(w + s =~= s);
    } else {
        assert((w + s)[0] == w[0]);
        assert((w + s).drop_first() =~= w.drop_first() + s);
        assert(all_white_space(w.drop_first())) by {
            assert forall|i: int| 0 <= i < w.drop_first().len() implies #[trigger] is_white_space(
                w.drop_first()[i],
            ) by {
                assert(w.drop_first()[i] == w[i + 1]);
            }
        }
        lemma_trim_start_ws_prefix(w.drop_first(), s);
    }
}

proof fn lemma_trim_end_ws_suffix(s: Seq<char>, w: Seq<char>)
    requires
        all_white_space(w),
    ensures
        trim_end(s + w) == trim_end(s),
    decreases w.len(),
{
    if w.len() == 0 {
        assert(s + w =~= s);
    } else {
        assert((s + w).last() == w.last());
        assert((s + w).drop_last() =~= s + w.drop_last());
        assert(all_white_space(w.drop_last())) by {
            assert forall|i: int| 0 <= i < w.drop_last().len() implies #[trigger] is_white_space(
                w.drop_last()[i],
            ) by {
                assert(w.drop_last()[i] == w[i]);
            }
        }
        lemma_trim_end_ws_suffix(s, w.drop_last());
    }
}

proof fn lemma_trim_start_append(s: Seq<char>, w: Seq<char>)
    ensures
        trim_start(s + w) == if trim_start(s).len() > 0 {
            trim_start(s) + w
        } else {
            trim_start(w)
        },
    decreases s.len(),
{
    if s.len() == 0 {
        assert(s + w =~= w);
    } else {
        assert((s + w)[0] == s[0]);
        if is_white_space(s[0]) {
            assert((s + w).drop_first() =~= s.drop_first() + w);
            lemma_trim_start_append(s.drop_first(), w);
        }
    }
}

/// Law: white space around a text does not change what trimming gives.
pub proof fn lemma_trim_ignores_padding(before: Seq<char>, s: Seq<char>, after: Seq<char>)
    requires
        all_white_space(before),
        all_white_space(after),
    ensures
        trim(before + s + after) == trim(s),
{
    assert(before + s + after =~= before + (s + after));
    lemma_trim_start_ws_prefix(before, s + after);
    lemma_trim_start_append(s, after);
    if trim_start(s).len() > 0 {
        lemma_trim_end_ws_suffix(trim_start(s), after);
    } else {
        lemma_trim_start_ws_prefix(after, Seq::<char>::empty());
        assert(after + Seq::<char>::empty() =~= after);
        assert(trim_start(s) =~= Seq::<char>::empty());
    }
}

} // verus!

verus! {

proof fn lemma_find_from_first_occurrence(s: Seq<char>, p: Seq<char>, i: nat)
    ensures
        match find_from(s, p, i) {
            Some(k) => i <= k && occurs_at(s, p, k) && forall|j: int|
                i <= j < k ==> !#[trigger] occurs_at(s, p, j),
            None => forall|j: int| i <= j ==> !#[trigger] occurs_at(s, p, j),
        },
    decreases s.len() - i,
{
    if i + p.len() > s.len() {
    } else if p.len() == 0 {
        assert(s.subrange(i as int, i as int) =~= p);
    } else if occurs_at(s, p, i as int) {
    } else {
        lemma_find_from_first_occurrence(s, p, i + 1);
    }
}

/// Law: `find` gives the first position where the pattern occurs, and
/// nothing exactly when it occurs nowhere.
pub proof fn lemma_find_is_first(s: Seq<char>, p: Seq<char>)
    ensures
        find(s, p) matches Some(k) ==> occurs_at(s, p, k) && forall|j: int|
            0 <= j < k ==> !#[trigger] occurs_at(s, p, j),
        find(s, p) is None <==> forall|j: int| 0 <= j ==> !#[trigger] occurs_at(s, p, j),
{
    lemma_find_from_first_occurrence(s, p, 0);
}

/// Law: splitting at `c` gives the longest prefix of `s` without `c`: it
/// is a prefix, it holds no `c`, and it ends where `s` ends or at a `c`.
pub proof fn lemma_before_char_is_prefix(s: Seq<char>, c: char)
    ensures
        before_char(s, c).len() <= s.len(),
        before_char(s, c) == s.take(before_char(s, c).len() as int),
        forall|i: int| 0 <= i < before_char(s, c).len() ==> #[trigger] s[i] != c,
        before_char(s, c).len() == s.len() || s[before_char(s, c).len() as int] == c,
{
    lemma_find_from_first_occurrence(s, seq![c], 0);
    match find(s, seq![c]) {
        Some(k) => {
            assert(s.subrange(k, k + 1)[0] == s[k]);
            assert forall|i: int| 0 <= i < k implies #[trigger] s[i] != c by {
                if s[i] == c {
                    assert(s.subrange(i, i + 1) =~= seq![c]);
                    assert(occurs_at(s, seq![c], i));
                }
            }
        },
        None => {
            assert(s.take(s.len() as int) =~= s);
            assert forall|i: int| 0 <= i < s.len() implies #[trigger] s[i] != c by {
                if s[i] == c {
                    assert(s.subrange(i, i + 1) =~= seq![c]);
                    assert(occurs_at(s, seq![c], i));
                }
            }
        },
    }
}

proof fn lemma_trim_start_shape(s: Seq<char>)
    ensures
        exists|i: int|
            0 <= i <= s.len() && trim_start(s) == s.skip(i) && (forall|j: int|
                0 <= j < i ==> #[trigger] is_white_space(s[j])),
        trim_start(s).len() > 0 ==> !is_white_space(trim_start(s)[0]),
    decreases s.len(),
{
    if s.len() > 0 && is_white_space(s[0]) {
        lemma_trim_start_shape(s.drop_first());
        let i = choose|i: int|
            0 <= i <= s.drop_first().len() && trim_start(s.drop_first()) == s.drop_first().skip(i)
                && (forall|j: int| 0 <= j < i ==> #[trigger] is_white_space(s.drop_first()[j]));
        assert(s.drop_first().skip(i) =~= s.skip(i + 1));
        assert forall|j: int| 0 <= j < i + 1 implies #[trigger] is_white_space(s[j]) by {
            if j > 0 {
                assert(s[j] == s.drop_first()[j - 1]);
            }
        }
    } else {
        assert(s.skip(0) =~= s);
    }
}

proof fn lemma_trim_end_shape(s: Seq<char>)
    ensures
        exists|i: int|
            0 <= i <= s.len() && trim_end(s) == s.take(i) && (forall|j: int|
                i <= j < s.len() ==> #[trigger] is_white_space(s[j])),
        trim_end(s).len() > 0 ==> !is_white_space(trim_end(s).last()),
    decreases s.len(),
{
    if s.len() > 0 && is_white_space(s.last()) {
        lemma_trim_end_shape(s.drop_last());
        let i = choose|i: int|
            0 <= i <= s.drop_last().len() && trim_end(s.drop_last()) == s.drop_last().take(i)
                && (forall|j: int|
                i <= j < s.drop_last().len() ==> #[trigger] is_white_space(s.drop_last()[j]));
        assert(s.drop_last().take(i) =~= s.take(i));
        assert forall|j: int| i <= j < s.len() implies #[trigger] is_white_space(s[j]) by {
            if j < s.len() - 1 {
                assert(s[j] == s.drop_last()[j]);
            }
        }
    } else {
        assert(s.take(s.len() as int) =~= s);
    }
}

/// Law: trimming keeps a contiguous piece `s[i..j]` of `s`: everything
/// removed is white space, and what is kept neither starts nor ends with
/// white space.
pub proof fn lemma_trim_shape(s: Seq<char>)
    ensures
        exists|i: int, j: int|
            0 <= i <= j <= s.len() && trim(s) == s.subrange(i, j) && (forall|k: int|
                0 <= k < i ==> #[trigger] is_white_space(s[k])) && (forall|k: int|
                j <= k < s.len() ==> #[trigger] is_white_space(s[k])),
        trim(s).len() > 0 ==> !is_white_space(trim(s)[0]) && !is_white_space(trim(s).last()),
{
    lemma_trim_start_shape(s);
    let ts = trim_start(s);
    let i = choose|i: int|
        0 <= i <= s.len() && trim_start(s) == s.skip(i) && (forall|j: int|
            0 <= j < i ==> #[trigger] is_white_space(s[j]));
    lemma_trim_end_shape(ts);
    let e = choose|e: int|
        0 <= e <= ts.len() && trim_end(ts) == ts.take(e) && (forall|j: int|
            e <= j < ts.len() ==> #[trigger] is_white_space(ts[j]));
    assert(trim(s) =~= s.subrange(i, i + e));
    assert forall|k: int| i + e <= k < s.len() implies #[trigger] is_white_space(s[k]) by {
        assert(s[k] == ts[k - i]);
    }
    if trim(s).len() > 0 {
        assert(trim(s)[0] == ts[0]);
    }
}

} // verus!
