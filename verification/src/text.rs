//! Character-sequence utilities shared by the manifest parser and the
//! other string-handling components: trimming, searching, and prefix tests,
//! each with an exact specification over `Seq<char>`.

use vstd::prelude::*;
use vstd::string::StrSliceExecFns;

verus! {

/// ASCII whitespace; the manifest format and identifiers use no other kind.
pub open spec fn is_space(c: char) -> bool {
    c == ' ' || c == '\t' || c == '\r' || c == '\n'
}

pub open spec fn spec_trim_start(s: Seq<char>) -> Seq<char>
    decreases s.len(),
{
    if s.len() > 0 && is_space(s[0]) {
        spec_trim_start(s.drop_first())
    } else {
        s
    }
}

pub open spec fn spec_trim_end(s: Seq<char>) -> Seq<char>
    decreases s.len(),
{
    if s.len() > 0 && is_space(s.last()) {
        spec_trim_end(s.drop_last())
    } else {
        s
    }
}

/// The sequence with leading and trailing whitespace removed.
pub open spec fn spec_trim(s: Seq<char>) -> Seq<char> {
    spec_trim_end(spec_trim_start(s))
}

proof fn lemma_trim_start_skip(s: Seq<char>, a: int)
    requires
        0 <= a <= s.len(),
        forall|j: int| 0 <= j < a ==> is_space(s[j]),
        a == s.len() || !is_space(s[a]),
    ensures
        spec_trim_start(s) == s.skip(a),
    decreases a,
{
    if a == 0 {
        assert(s.skip(0) =~= s);
    } else {
        assert(is_space(s[0]));
        let t = s.drop_first();
        assert(t =~= s.skip(1));
        lemma_trim_start_skip(t, a - 1);
        assert(t.skip(a - 1) =~= s.skip(a));
    }
}

proof fn lemma_trim_end_take(s: Seq<char>, b: int)
    requires
        0 <= b <= s.len(),
        forall|j: int| b <= j < s.len() ==> is_space(s[j]),
        b == 0 || !is_space(s[b - 1]),
    ensures
        spec_trim_end(s) == s.take(b),
    decreases s.len(),
{
    if b == s.len() {
        if s.len() > 0 && is_space(s.last()) {
            assert(!is_space(s[b - 1]));
            assert(false);
        } else {
            assert(s.take(b) =~= s);
        }
    } else {
        assert(is_space(s.last()));
        let t = s.drop_last();
        lemma_trim_end_take(t, b);
        assert(t.take(b) =~= s.take(b));
    }
}

pub proof fn lemma_trim_end_len(s: Seq<char>)
    ensures
        spec_trim_end(s).len() <= s.len(),
    decreases s.len(),
{
    if s.len() > 0 && is_space(s.last()) {
        lemma_trim_end_len(s.drop_last());
    }
}

/// The whitespace-trimmed tail of a sequence is one of its prefixes.
pub proof fn lemma_trim_end_prefix(s: Seq<char>)
    ensures
        spec_trim_end(s).len() <= s.len(),
        spec_trim_end(s) == s.take(spec_trim_end(s).len() as int),
    decreases s.len(),
{
    lemma_trim_end_len(s);
    if s.len() > 0 && is_space(s.last()) {
        let t = s.drop_last();
        lemma_trim_end_prefix(t);
        assert(t.take(spec_trim_end(t).len() as int) =~= s.take(spec_trim_end(t).len() as int));
    } else {
        assert(s.take(s.len() as int) =~= s);
    }
}

pub proof fn lemma_trim_end_empty_all_space(s: Seq<char>)
    requires
        spec_trim_end(s).len() == 0,
    ensures
        forall|j: int| 0 <= j < s.len() ==> is_space(s[j]),
    decreases s.len(),
{
    if s.len() > 0 {
        if !is_space(s.last()) {
            assert(spec_trim_end(s) == s);
            assert(false);
        }
        let t = s.drop_last();
        lemma_trim_end_empty_all_space(t);
        assert(forall|j: int| 0 <= j < s.len() - 1 ==> s[j] == t[j]);
    }
}

/// Trimming the end of `a + b` only reaches into `b` when `a` does not end
/// in whitespace.
pub proof fn lemma_trim_end_concat(a: Seq<char>, b: Seq<char>)
    requires
        a.len() > 0,
        !is_space(a.last()),
    ensures
        spec_trim_end(a + b) == a + spec_trim_end(b),
    decreases b.len(),
{
    if b.len() == 0 {
        assert(a + b =~= a);
        assert(a + spec_trim_end(b) =~= a);
    } else if is_space(b.last()) {
        assert((a + b).last() == b.last());
        assert((a + b).drop_last() =~= a + b.drop_last());
        lemma_trim_end_concat(a, b.drop_last());
    } else {
        assert((a + b).last() == b.last());
        assert(spec_trim_end(a + b) == a + b);
        assert(spec_trim_end(b) == b);
    }
}

/// Trimming `a + b` keeps all of `a` when `a` starts and ends with
/// non-whitespace.
pub proof fn lemma_trim_concat(a: Seq<char>, b: Seq<char>)
    requires
        a.len() > 0,
        !is_space(a[0]),
        !is_space(a.last()),
    ensures
        spec_trim(a + b) == a + spec_trim_end(b),
{
    assert((a + b)[0] == a[0]);
    assert(spec_trim_start(a + b) == a + b);
    lemma_trim_end_concat(a, b);
}

/// Searching `a + b` for a character that `a` lacks lands in `b`.
pub proof fn lemma_find_char_concat(a: Seq<char>, b: Seq<char>, c: char)
    requires
        forall|j: int| 0 <= j < a.len() ==> a[j] != c,
    ensures
        spec_find_char(a + b, c) == a.len() + spec_find_char(b, c),
    decreases a.len(),
{
    if a.len() == 0 {
        assert(a + b =~= b);
    } else {
        assert((a + b)[0] == a[0]);
        assert((a + b).drop_first() =~= a.drop_first() + b);
        lemma_find_char_concat(a.drop_first(), b, c);
    }
}

fn char_is_space(c: char) -> (r: bool)
    ensures
        r == is_space(c),
{
    c == ' ' || c == '\t' || c == '\r' || c == '\n'
}

/// Removes leading and trailing whitespace.
pub fn trim_str<'a>(s: &'a str) -> (r: &'a str)
    ensures
        r@ == spec_trim(s@),
{
    let n = s.unicode_len();
    let mut a: usize = 0;
    loop
        invariant
            a <= n,
            n == s@.len(),
            forall|j: int| 0 <= j < a ==> is_space(s@[j]),
        ensures
            a <= n,
            forall|j: int| 0 <= j < a ==> is_space(s@[j]),
            a == n || !is_space(s@[a as int]),
        decreases n - a,
    {
        if a >= n {
            break ;
        }
        if !char_is_space(s.get_char(a)) {
            break ;
        }
        a += 1;
    }
    let mut b: usize = n;
    loop
        invariant
            a <= b <= n,
            n == s@.len(),
            forall|j: int| b <= j < n ==> is_space(s@[j]),
        ensures
            a <= b <= n,
            forall|j: int| b <= j < n ==> is_space(s@[j]),
            b == a || !is_space(s@[b - 1]),
        decreases b,
    {
        if b <= a {
            break ;
        }
        if !char_is_space(s.get_char(b - 1)) {
            break ;
        }
        b -= 1;
    }
    proof {
        lemma_trim_start_skip(s@, a as int);
        let t = s@.skip(a as int);
        if b == a {
            assert(forall|j: int| 0 <= j < t.len() ==> is_space(#[trigger] t[j]));
            lemma_trim_end_take(t, 0);
        } else {
            assert(!is_space(s@[b - 1]));
            assert(forall|j: int| b - a <= j < t.len() ==> is_space(#[trigger] t[j]));
            assert(t[b - a - 1] == s@[b - 1]);
            lemma_trim_end_take(t, b - a);
        }
        assert(t.take(b - a) =~= s@.subrange(a as int, b as int));
    }
    s.substring_char(a, b)
}

/// Index of the first occurrence of `c` in `s`, or `s.len()` if absent.
pub open spec fn spec_find_char(s: Seq<char>, c: char) -> int
    decreases s.len(),
{
    if s.len() == 0 {
        0
    } else if s[0] == c {
        0
    } else {
        1 + spec_find_char(s.drop_first(), c)
    }
}

pub proof fn lemma_find_char(s: Seq<char>, c: char)
    ensures
        0 <= spec_find_char(s, c) <= s.len(),
        forall|j: int| 0 <= j < spec_find_char(s, c) ==> s[j] != c,
        spec_find_char(s, c) < s.len() ==> s[spec_find_char(s, c)] == c,
    decreases s.len(),
{
    if s.len() > 0 && s[0] != c {
        let t = s.drop_first();
        lemma_find_char(t, c);
        assert(forall|j: int| 1 <= j < s.len() ==> s[j] == t[j - 1]);
    }
}

proof fn lemma_find_char_unique(s: Seq<char>, c: char, i: int)
    requires
        0 <= i <= s.len(),
        forall|j: int| 0 <= j < i ==> s[j] != c,
        i == s.len() || s[i] == c,
    ensures
        i == spec_find_char(s, c),
    decreases s.len(),
{
    if s.len() == 0 {
    } else if s[0] == c {
        assert(i == 0);
    } else {
        assert(i > 0);
        let t = s.drop_first();
        assert(forall|j: int| 0 <= j < i - 1 ==> t[j] == s[j + 1]);
        assert(i - 1 == t.len() || t[i - 1] == c);
        lemma_find_char_unique(t, c, i - 1);
    }
}

/// Index of the first occurrence of `c`, or the length of `s` if absent.
pub fn find_char(s: &str, c: char) -> (i: usize)
    ensures
        i as int == spec_find_char(s@, c),
        i <= s@.len(),
{
    let n = s.unicode_len();
    let mut i: usize = 0;
    loop
        invariant
            i <= n,
            n == s@.len(),
            forall|j: int| 0 <= j < i ==> s@[j] != c,
        ensures
            i <= n,
            forall|j: int| 0 <= j < i ==> s@[j] != c,
            i == n || s@[i as int] == c,
        decreases n - i,
    {
        if i >= n {
            break ;
        }
        if s.get_char(i) == c {
            break ;
        }
        i += 1;
    }
    proof {
        lemma_find_char_unique(s@, c, i as int);
    }
    i
}

/// Index of the last occurrence of `c` in `s`, or `-1` if absent.
pub open spec fn spec_rfind_char(s: Seq<char>, c: char) -> int
    decreases s.len(),
{
    if s.len() == 0 {
        -1
    } else if s.last() == c {
        s.len() - 1
    } else {
        spec_rfind_char(s.drop_last(), c)
    }
}

pub proof fn lemma_rfind_char(s: Seq<char>, c: char)
    ensures
        -1 <= spec_rfind_char(s, c) < s.len(),
        spec_rfind_char(s, c) >= 0 ==> s[spec_rfind_char(s, c)] == c,
        forall|j: int| spec_rfind_char(s, c) < j < s.len() ==> s[j] != c,
    decreases s.len(),
{
    if s.len() > 0 && s.last() != c {
        let t = s.drop_last();
        lemma_rfind_char(t, c);
        assert(forall|j: int| 0 <= j < s.len() - 1 ==> s[j] == t[j]);
    }
}

proof fn lemma_rfind_char_unique(s: Seq<char>, c: char, i: int)
    requires
        -1 <= i < s.len(),
        forall|j: int| i < j < s.len() ==> s[j] != c,
        i == -1 || s[i] == c,
    ensures
        i == spec_rfind_char(s, c),
    decreases s.len(),
{
    if s.len() == 0 {
    } else if s.last() == c {
        assert(i == s.len() - 1);
    } else {
        assert(i < s.len() - 1);
        let t = s.drop_last();
        assert(forall|j: int| i < j < t.len() ==> t[j] == s[j]);
        lemma_rfind_char_unique(t, c, i);
    }
}

/// Index of the last occurrence of `c`, or the length of `s` if absent
/// (so the result can be carried in a `usize`).
pub fn rfind_char(s: &str, c: char) -> (i: usize)
    ensures
        i < s@.len() ==> i as int == spec_rfind_char(s@, c),
        i == s@.len() ==> spec_rfind_char(s@, c) == -1,
        i <= s@.len(),
{
    let n = s.unicode_len();
    let mut i: usize = n;
    loop
        invariant
            i <= n,
            n == s@.len(),
            forall|j: int| i <= j < n ==> s@[j] != c,
        ensures
            i <= n,
            forall|j: int| i <= j < n ==> s@[j] != c,
            i == 0 || s@[i - 1] == c,
        decreases i,
    {
        if i == 0 {
            break ;
        }
        if s.get_char(i - 1) == c {
            break ;
        }
        i -= 1;
    }
    if i == 0 {
        proof {
            lemma_rfind_char_unique(s@, c, -1);
        }
        n
    } else {
        proof {
            lemma_rfind_char_unique(s@, c, i - 1);
        }
        i - 1
    }
}

/// `p` is a prefix of `s`.
pub open spec fn spec_starts_with(s: Seq<char>, p: Seq<char>) -> bool {
    p.len() <= s.len() && forall|j: int| 0 <= j < p.len() ==> s[j] == p[j]
}

pub fn str_starts_with(s: &str, p: &str) -> (r: bool)
    ensures
        r == spec_starts_with(s@, p@),
{
    let n = s.unicode_len();
    let m = p.unicode_len();
    if m > n {
        return false;
    }
    let mut j: usize = 0;
    loop
        invariant
            j <= m <= n,
            n == s@.len(),
            m == p@.len(),
            forall|k: int| 0 <= k < j ==> s@[k] == p@[k],
        ensures
            forall|k: int| 0 <= k < m ==> s@[k] == p@[k],
        decreases m - j,
    {
        if j >= m {
            break ;
        }
        if s.get_char(j) != p.get_char(j) {
            return false;
        }
        j += 1;
    }
    true
}

/// Lexicographic order on character sequences: `a` is at or before `b`.
pub open spec fn spec_lex_le(a: Seq<char>, b: Seq<char>) -> bool
    decreases a.len(),
{
    if a.len() == 0 {
        true
    } else if b.len() == 0 {
        false
    } else if a[0] < b[0] {
        true
    } else if b[0] < a[0] {
        false
    } else {
        spec_lex_le(a.drop_first(), b.drop_first())
    }
}

/// The order is decided by the first differing position.
pub proof fn lemma_lex_le_skip(a: Seq<char>, b: Seq<char>, i: int)
    requires
        0 <= i <= a.len(),
        i <= b.len(),
        forall|j: int| 0 <= j < i ==> a[j] == b[j],
    ensures
        spec_lex_le(a, b) == spec_lex_le(a.skip(i), b.skip(i)),
    decreases i,
{
    if i > 0 {
        assert(a.len() > 0 && b.len() > 0);
        assert(a[0] == b[0]);
        assert(a.drop_first() =~= a.skip(1));
        assert(b.drop_first() =~= b.skip(1));
        lemma_lex_le_skip(a.skip(1), b.skip(1), i - 1);
        assert(a.skip(1).skip(i - 1) =~= a.skip(i));
        assert(b.skip(1).skip(i - 1) =~= b.skip(i));
    } else {
        assert(a.skip(0) =~= a);
        assert(b.skip(0) =~= b);
    }
}

/// The order is total.
pub proof fn lemma_lex_le_total(a: Seq<char>, b: Seq<char>)
    ensures
        spec_lex_le(a, b) || spec_lex_le(b, a),
    decreases a.len(),
{
    if a.len() > 0 && b.len() > 0 && !(a[0] < b[0]) && !(b[0] < a[0]) {
        lemma_lex_le_total(a.drop_first(), b.drop_first());
    }
}

/// The order is transitive.
pub proof fn lemma_lex_le_trans(a: Seq<char>, b: Seq<char>, c: Seq<char>)
    requires
        spec_lex_le(a, b),
        spec_lex_le(b, c),
    ensures
        spec_lex_le(a, c),
    decreases a.len(),
{
    if a.len() > 0 {
        assert(b.len() > 0);
        assert(c.len() > 0);
        if !(a[0] < c[0]) {
            assert(a[0] == b[0] && b[0] == c[0]);
            lemma_lex_le_trans(a.drop_first(), b.drop_first(), c.drop_first());
        }
    }
}

/// Decides the lexicographic order on two strings.
pub fn lex_le(a: &str, b: &str) -> (r: bool)
    ensures
        r == spec_lex_le(a@, b@),
{
    let an = a.unicode_len();
    let bn = b.unicode_len();
    let mut i: usize = 0;
    loop
        invariant
            i <= an,
            i <= bn,
            an == a@.len(),
            bn == b@.len(),
            forall|j: int| 0 <= j < i ==> a@[j] == b@[j],
        ensures
            i <= an && i <= bn,
            forall|j: int| 0 <= j < i ==> a@[j] == b@[j],
            i == an || i == bn || a@[i as int] != b@[i as int],
        decreases an - i,
    {
        if i >= an || i >= bn {
            break ;
        }
        if a.get_char(i) != b.get_char(i) {
            break ;
        }
        i += 1;
    }
    proof {
        lemma_lex_le_skip(a@, b@, i as int);
    }
    if i >= an {
        true
    } else if i >= bn {
        proof {
            assert(a@.skip(i as int).len() > 0);
            assert(b@.skip(i as int).len() == 0);
        }
        false
    } else {
        let ca = a.get_char(i);
        let cb = b.get_char(i);
        proof {
            assert(a@.skip(i as int)[0] == a@[i as int]);
            assert(b@.skip(i as int)[0] == b@[i as int]);
        }
        ca < cb
    }
}

/// `n` occurs in `h` starting at index `i`.
pub open spec fn spec_matches_at(h: Seq<char>, n: Seq<char>, i: int) -> bool {
    i + n.len() <= h.len() && forall|j: int| 0 <= j < n.len() ==> h[i + j] == n[j]
}

/// `n` occurs somewhere in `h` as a contiguous subsequence.
pub open spec fn spec_contains_seq(h: Seq<char>, n: Seq<char>) -> bool {
    exists|i: int| 0 <= i && spec_matches_at(h, n, i)
}

fn matches_at(h: &str, n: &str, i: usize) -> (r: bool)
    requires
        i + n@.len() <= h@.len(),
    ensures
        r == spec_matches_at(h@, n@, i as int),
{
    let hl = h.unicode_len();
    let m = n.unicode_len();
    let mut j: usize = 0;
    loop
        invariant
            j <= m,
            m == n@.len(),
            hl == h@.len(),
            i + m <= hl,
            forall|k: int| 0 <= k < j ==> h@[i + k] == n@[k],
        ensures
            forall|k: int| 0 <= k < m ==> h@[i + k] == n@[k],
        decreases m - j,
    {
        if j >= m {
            break ;
        }
        if h.get_char(i + j) != n.get_char(j) {
            return false;
        }
        j += 1;
    }
    true
}

/// Substring search.
pub fn str_contains(h: &str, n: &str) -> (r: bool)
    ensures
        r == spec_contains_seq(h@, n@),
{
    let hl = h.unicode_len();
    let nl = n.unicode_len();
    if nl > hl {
        assert(forall|i: int| 0 <= i ==> !spec_matches_at(h@, n@, i));
        return false;
    }
    let mut i: usize = 0;
    loop
        invariant
            i <= hl - nl,
            hl == h@.len(),
            nl == n@.len(),
            nl <= hl,
            forall|k: int| 0 <= k < i ==> !spec_matches_at(h@, n@, k),
        decreases hl - nl - i,
    {
        if matches_at(h, n, i) {
            return true;
        }
        if i >= hl - nl {
            assert(forall|k: int| 0 <= k && spec_matches_at(h@, n@, k) ==> k <= hl - nl);
            return false;
        }
        i += 1;
    }
}

} // verus!
