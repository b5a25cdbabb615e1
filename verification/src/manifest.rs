//! The declarative dependency manifest: extracting the specifier block and
//! normalizing specifiers to bare package names.
//!
//! The manifest is line-oriented. The dependency block opens at the first
//! line that starts with `dependencies` and contains `[`, and closes at the
//! first subsequent line that starts with `]`. Within the block, blank lines
//! and lines starting with `#` are ignored; from every other line the text
//! between the first and the last double quote is taken as one specifier.

use vstd::prelude::*;
use vstd::string::StrSliceExecFns;
use vstd::string::StringExecFns;

use crate::text::{
    find_char, is_space, lemma_find_char, lemma_find_char_concat, lemma_lex_le_total,
    lemma_lex_le_trans, lemma_rfind_char, lemma_trim_concat, lemma_trim_end_empty_all_space,
    lemma_trim_end_prefix, lex_le, rfind_char, spec_find_char, spec_lex_le, spec_rfind_char,
    spec_starts_with, spec_trim, spec_trim_end, str_starts_with, trim_str,
};

verus! {

/// The text split at every newline character. A trailing newline yields a
/// final empty line, which every consumer here ignores.
pub open spec fn spec_lines(s: Seq<char>) -> Seq<Seq<char>>
    decreases s.len(),
    when s.len() >= 0
    via spec_lines_decreases
{
    let i = spec_find_char(s, '\n');
    if i == s.len() {
        seq![s]
    } else {
        seq![s.take(i)] + spec_lines(s.skip(i + 1))
    }
}

#[via_fn]
proof fn spec_lines_decreases(s: Seq<char>) {
    lemma_find_char(s, '\n');
}

pub fn split_lines(s: &str) -> (r: Vec<String>)
    ensures
        r.deep_view() == spec_lines(s@),
    decreases s@.len(),
{
    let n = s.unicode_len();
    let i = find_char(s, '\n');
    proof {
        lemma_find_char(s@, '\n');
    }
    if i == n {
        let mut v: Vec<String> = Vec::new();
        v.push(String::from_str(s));
        proof {
            assert(v.deep_view() =~= seq![s@]);
        }
        v
    } else {
        let head = s.substring_char(0, i);
        let tail = s.substring_char(i + 1, n);
        proof {
            assert(tail@ =~= s@.skip(i + 1));
            assert(head@ =~= s@.take(i as int));
        }
        let mut rest = split_lines(tail);
        rest.insert(0, String::from_str(head));
        proof {
            assert(rest.deep_view() =~= seq![s@.take(i as int)] + spec_lines(s@.skip(i + 1)));
        }
        rest
    }
}

/// One step of the block scan: what the parser gathers from the lines at
/// and after `lines[0]`, given whether the dependency block is already open.
pub open spec fn spec_parse_deps(lines: Seq<Seq<char>>, in_deps: bool) -> Seq<Seq<char>>
    decreases lines.len(),
{
    if lines.len() == 0 {
        Seq::empty()
    } else {
        let line = spec_trim(lines[0]);
        let rest = lines.drop_first();
        if !in_deps {
            if spec_starts_with(line, "dependencies"@) && spec_find_char(line, '[') < line.len() {
                spec_parse_deps(rest, true)
            } else {
                spec_parse_deps(rest, false)
            }
        } else if line.len() > 0 && line[0] == ']' {
            Seq::empty()
        } else if line.len() == 0 || line[0] == '#' {
            spec_parse_deps(rest, true)
        } else {
            let a = spec_find_char(line, '"');
            let b = spec_rfind_char(line, '"');
            if a < line.len() && b > a {
                let dep = spec_trim(line.subrange(a + 1, b));
                if dep.len() > 0 {
                    seq![dep] + spec_parse_deps(rest, true)
                } else {
                    spec_parse_deps(rest, true)
                }
            } else {
                spec_parse_deps(rest, true)
            }
        }
    }
}

/// The specifiers the manifest text declares, in order of appearance.
pub open spec fn spec_parse_manifest(text: Seq<char>) -> Seq<Seq<char>> {
    spec_parse_deps(spec_lines(text), false)
}

/// Extracts the quoted dependency specifiers from a manifest text.
pub fn parse_pyproject_dependencies(pyproject: &str) -> (deps: Vec<String>)
    ensures
        deps.deep_view() == spec_parse_manifest(pyproject@),
{
    let lines = split_lines(pyproject);
    let mut deps: Vec<String> = Vec::new();
    let mut in_deps = false;
    let mut k: usize = 0;
    let n = lines.len();
    proof {
        assert(lines.deep_view().skip(0) =~= lines.deep_view());
        assert(deps.deep_view() =~= Seq::<Seq<char>>::empty());
        assert(Seq::<Seq<char>>::empty() + spec_parse_deps(lines.deep_view(), false)
            =~= spec_parse_deps(lines.deep_view(), false));
    }
    loop
        invariant
            k <= n,
            n == lines@.len(),
            lines.deep_view() == spec_lines(pyproject@),
            spec_parse_manifest(pyproject@) == deps.deep_view() + spec_parse_deps(
                lines.deep_view().skip(k as int),
                in_deps,
            ),
        ensures
            spec_parse_manifest(pyproject@) == deps.deep_view(),
        decreases n - k,
    {
        proof {
            assert(lines.deep_view().len() == n);
        }
        if k >= n {
            proof {
                assert(lines.deep_view().skip(k as int) =~= Seq::<Seq<char>>::empty());
                assert(deps.deep_view() + Seq::<Seq<char>>::empty() =~= deps.deep_view());
            }
            break ;
        }
        let ghost prev = lines.deep_view().skip(k as int);
        proof {
            assert(prev.len() > 0);
            assert(prev[0] == lines.deep_view()[k as int]);
            assert(prev.drop_first() =~= lines.deep_view().skip(k as int + 1));
            assert(lines.deep_view()[k as int] == lines@[k as int]@);
        }
        let line = trim_str(lines[k].as_str());
        let line_len = line.unicode_len();
        if !in_deps {
            if str_starts_with(line, "dependencies") && find_char(line, '[') < line_len {
                in_deps = true;
            }
            k += 1;
        } else if line_len > 0 && line.get_char(0) == ']' {
            proof {
                assert(spec_parse_deps(prev, true) =~= Seq::<Seq<char>>::empty());
                assert(deps.deep_view() + Seq::<Seq<char>>::empty() =~= deps.deep_view());
            }
            break ;
        } else if line_len == 0 {
            k += 1;
        } else if line.get_char(0) == '#' {
            k += 1;
        } else {
            let a = find_char(line, '"');
            let b = rfind_char(line, '"');
            proof {
                lemma_rfind_char(line@, '"');
            }
            if a < line_len && b < line_len && b > a {
                let dep = trim_str(line.substring_char(a + 1, b));
                proof {
                    assert(line@.subrange(a + 1, b as int) == line@.subrange(a + 1, b as int));
                }
                if dep.unicode_len() > 0 {
                    let ghost old_deps = deps.deep_view();
                    deps.push(String::from_str(dep));
                    proof {
                        assert(deps.deep_view() =~= old_deps + seq![dep@]);
                        assert(old_deps + (seq![dep@] + spec_parse_deps(prev.drop_first(), true))
                            =~= (old_deps + seq![dep@]) + spec_parse_deps(
                            prev.drop_first(),
                            true,
                        ));
                    }
                }
                k += 1;
            } else {
                k += 1;
            }
        }
    }
    deps
}

/// The characters that may open a version constraint in a specifier.
pub open spec fn version_op(c: char) -> bool {
    c == '=' || c == '<' || c == '>' || c == '!' || c == '~'
}

/// Index of the first version-operator character, or `s.len()` if absent.
pub open spec fn spec_find_vop(s: Seq<char>) -> int
    decreases s.len(),
{
    if s.len() == 0 {
        0
    } else if version_op(s[0]) {
        0
    } else {
        1 + spec_find_vop(s.drop_first())
    }
}

pub proof fn lemma_find_vop(s: Seq<char>)
    ensures
        0 <= spec_find_vop(s) <= s.len(),
        forall|j: int| 0 <= j < spec_find_vop(s) ==> !version_op(s[j]),
        spec_find_vop(s) < s.len() ==> version_op(s[spec_find_vop(s)]),
    decreases s.len(),
{
    if s.len() > 0 && !version_op(s[0]) {
        let t = s.drop_first();
        lemma_find_vop(t);
        assert(forall|j: int| 1 <= j < s.len() ==> s[j] == t[j - 1]);
    }
}

proof fn lemma_find_vop_unique(s: Seq<char>, i: int)
    requires
        0 <= i <= s.len(),
        forall|j: int| 0 <= j < i ==> !version_op(s[j]),
        i == s.len() || version_op(s[i]),
    ensures
        i == spec_find_vop(s),
    decreases s.len(),
{
    if s.len() == 0 {
    } else if version_op(s[0]) {
        assert(i == 0);
    } else {
        assert(i > 0);
        let t = s.drop_first();
        assert(forall|j: int| 0 <= j < i - 1 ==> t[j] == s[j + 1]);
        assert(i - 1 == t.len() || version_op(t[i - 1]));
        lemma_find_vop_unique(t, i - 1);
    }
}

fn find_vop(s: &str) -> (i: usize)
    ensures
        i as int == spec_find_vop(s@),
        i <= s@.len(),
{
    let n = s.unicode_len();
    let mut i: usize = 0;
    loop
        invariant
            i <= n,
            n == s@.len(),
            forall|j: int| 0 <= j < i ==> !version_op(s@[j]),
        ensures
            i <= n,
            forall|j: int| 0 <= j < i ==> !version_op(s@[j]),
            i == n || version_op(s@[i as int]),
        decreases n - i,
    {
        if i >= n {
            break ;
        }
        let c = s.get_char(i);
        if c == '=' || c == '<' || c == '>' || c == '!' || c == '~' {
            break ;
        }
        i += 1;
    }
    proof {
        lemma_find_vop_unique(s@, i as int);
    }
    i
}

/// The bare package name of a specifier: the text before any environment
/// marker (`;`), direct reference (`@`), version operator, or extras (`[`),
/// trimmed; `None` when nothing remains.
pub open spec fn spec_normalize(s: Seq<char>) -> Option<Seq<char>> {
    let t1 = spec_trim(s.take(spec_find_char(s, ';')));
    if t1.len() == 0 {
        None
    } else {
        let t2 = spec_trim(t1.take(spec_find_char(t1, '@')));
        if t2.len() == 0 {
            None
        } else {
            let t3 = t2.take(spec_find_vop(t2));
            let t4 = spec_trim(t3.take(spec_find_char(t3, '[')));
            if t4.len() == 0 {
                None
            } else {
                Some(t4)
            }
        }
    }
}

/// Normalizes one specifier to its bare package name.
pub fn normalize_dependency_name(dep: &str) -> (r: Option<String>)
    ensures
        r.deep_view() == spec_normalize(dep@),
{
    let n = dep.unicode_len();
    let i1 = find_char(dep, ';');
    let t1 = trim_str(dep.substring_char(0, i1));
    proof {
        assert(dep@.subrange(0, i1 as int) =~= dep@.take(i1 as int));
    }
    let t1_len = t1.unicode_len();
    if t1_len == 0 {
        return None;
    }
    let i2 = find_char(t1, '@');
    let t2 = trim_str(t1.substring_char(0, i2));
    proof {
        assert(t1@.subrange(0, i2 as int) =~= t1@.take(i2 as int));
    }
    let t2_len = t2.unicode_len();
    if t2_len == 0 {
        return None;
    }
    let i3 = find_vop(t2);
    let t3 = t2.substring_char(0, i3);
    proof {
        assert(t2@.subrange(0, i3 as int) =~= t2@.take(i3 as int));
    }
    let i4 = find_char(t3, '[');
    let t4 = trim_str(t3.substring_char(0, i4));
    proof {
        assert(t3@.subrange(0, i4 as int) =~= t3@.take(i4 as int));
    }
    if t4.unicode_len() == 0 {
        None
    } else {
        Some(String::from_str(t4))
    }
}

/// `spec_normalize` mapped over a specifier list, dropping the `None`s.
pub open spec fn spec_normalized(deps: Seq<Seq<char>>) -> Seq<Seq<char>>
    decreases deps.len(),
{
    if deps.len() == 0 {
        Seq::empty()
    } else {
        let rest = spec_normalized(deps.drop_first());
        match spec_normalize(deps[0]) {
            Some(name) => seq![name] + rest,
            None => rest,
        }
    }
}

/// Keeps the first occurrence of every element, in order.
pub open spec fn spec_dedup(s: Seq<Seq<char>>) -> Seq<Seq<char>>
    decreases s.len(),
{
    if s.len() == 0 {
        Seq::empty()
    } else {
        let rest = spec_dedup(s.drop_last());
        if rest.contains(s.last()) {
            rest
        } else {
            rest.push(s.last())
        }
    }
}

proof fn lemma_normalized_push(deps: Seq<Seq<char>>, x: Seq<char>)
    ensures
        spec_normalized(deps.push(x)) == spec_normalized(deps) + (match spec_normalize(x) {
            Some(name) => seq![name],
            None => Seq::<Seq<char>>::empty(),
        }),
    decreases deps.len(),
{
    let tail = match spec_normalize(x) {
        Some(name) => seq![name],
        None => Seq::<Seq<char>>::empty(),
    };
    if deps.len() == 0 {
        reveal_with_fuel(spec_normalized, 2);
        assert(deps.push(x)[0] == x);
        assert(deps.push(x).drop_first() =~= Seq::<Seq<char>>::empty());
        assert(deps.push(x).drop_first() == Seq::<Seq<char>>::empty());
        match spec_normalize(x) {
            Some(name) => {
                assert(spec_normalized(deps.push(x)) =~= seq![name]);
                assert(spec_normalized(deps) + tail =~= seq![name]);
            },
            None => {
                assert(spec_normalized(deps.push(x)) =~= Seq::<Seq<char>>::empty());
                assert(spec_normalized(deps) + tail =~= Seq::<Seq<char>>::empty());
            },
        }
    } else {
        assert(deps.push(x).drop_first() =~= deps.drop_first().push(x));
        lemma_normalized_push(deps.drop_first(), x);
        assert(deps.push(x)[0] == deps[0]);
        match spec_normalize(deps[0]) {
            Some(name) => {
                assert((seq![name] + spec_normalized(deps.drop_first())) + tail =~= seq![name] + (
                spec_normalized(deps.drop_first()) + tail));
            },
            None => {},
        }
    }
}

/// Every element of a deduplicated sequence appears exactly once, and the
/// deduplicated sequence has exactly the elements of the original.
pub proof fn lemma_dedup_props(s: Seq<Seq<char>>)
    ensures
        forall|x: Seq<char>| spec_dedup(s).contains(x) <==> s.contains(x),
        forall|i: int, j: int|
            0 <= i < j < spec_dedup(s).len() ==> spec_dedup(s)[i] != spec_dedup(s)[j],
    decreases s.len(),
{
    if s.len() > 0 {
        let t = s.drop_last();
        lemma_dedup_props(t);
        let d = spec_dedup(s);
        let dt = spec_dedup(t);
        assert forall|x: Seq<char>| d.contains(x) implies s.contains(x) by {
            if dt.contains(x) {
                assert(t.contains(x));
                let w = choose|w: int| 0 <= w < t.len() && t[w] == x;
                assert(s[w] == x);
            } else {
                assert(x == s.last());
            }
        }
        assert forall|x: Seq<char>| s.contains(x) implies d.contains(x) by {
            let w = choose|w: int| 0 <= w < s.len() && s[w] == x;
            if w < s.len() - 1 {
                assert(t[w] == x);
                assert(t.contains(x));
                assert(dt.contains(x));
                if !dt.contains(s.last()) {
                    let u = choose|u: int| 0 <= u < dt.len() && dt[u] == x;
                    assert(d[u] == x);
                }
            } else {
                if dt.contains(s.last()) {
                    let u = choose|u: int| 0 <= u < dt.len() && dt[u] == x;
                    assert(d[u] == x);
                } else {
                    assert(d.last() == x);
                }
            }
        }
        if !dt.contains(s.last()) {
            assert forall|i: int, j: int| 0 <= i < j < d.len() implies d[i] != d[j] by {
                if j < d.len() - 1 {
                    assert(d[i] == dt[i] && d[j] == dt[j]);
                } else {
                    assert(d[i] == dt[i]);
                    assert(d[j] == s.last());
                    assert(dt.contains(dt[i]));
                }
            }
        }
    }
}

fn vec_contains_string(v: &Vec<String>, x: &String) -> (r: bool)
    ensures
        r == v.deep_view().contains(x@),
{
    let n = v.len();
    let mut i: usize = 0;
    loop
        invariant
            i <= n,
            n == v@.len(),
            forall|j: int| 0 <= j < i ==> v.deep_view()[j] != x@,
        ensures
            i <= n,
            forall|j: int| 0 <= j < i ==> v.deep_view()[j] != x@,
            i < n ==> v.deep_view()[i as int] == x@,
        decreases n - i,
    {
        if i >= n {
            break ;
        }
        if v[i].eq(x) {
            break ;
        }
        i += 1;
    }
    if i < n {
        proof {
            assert(v.deep_view().contains(x@));
        }
        true
    } else {
        false
    }
}

/// `x` placed into the sorted sequence `s`, before the first element at or
/// after it.
pub open spec fn spec_insert_sorted(x: Seq<char>, s: Seq<Seq<char>>) -> Seq<Seq<char>>
    decreases s.len(),
{
    if s.len() == 0 {
        seq![x]
    } else if spec_lex_le(x, s[0]) {
        seq![x] + s
    } else {
        seq![s[0]] + spec_insert_sorted(x, s.drop_first())
    }
}

/// Insertion sort, folding from the left.
pub open spec fn spec_sort(s: Seq<Seq<char>>) -> Seq<Seq<char>>
    decreases s.len(),
{
    if s.len() == 0 {
        Seq::empty()
    } else {
        spec_insert_sorted(s.last(), spec_sort(s.drop_last()))
    }
}

/// Nondecreasing under the lexicographic order.
pub open spec fn spec_sorted(s: Seq<Seq<char>>) -> bool {
    forall|i: int, j: int| 0 <= i < j < s.len() ==> spec_lex_le(s[i], s[j])
}

proof fn lemma_insert_sorted_at(x: Seq<char>, s: Seq<Seq<char>>, p: int)
    requires
        0 <= p <= s.len(),
        forall|j: int| 0 <= j < p ==> !spec_lex_le(x, s[j]),
        p < s.len() ==> spec_lex_le(x, s[p]),
    ensures
        spec_insert_sorted(x, s) == s.take(p) + seq![x] + s.skip(p),
    decreases p,
{
    if p == 0 {
        if s.len() == 0 {
            assert(s.take(0) + seq![x] + s.skip(0) =~= seq![x]);
        } else {
            assert(s.take(0) + seq![x] + s.skip(0) =~= seq![x] + s);
        }
    } else {
        assert(!spec_lex_le(x, s[0]));
        let t = s.drop_first();
        assert(forall|j: int| 0 <= j < p - 1 ==> t[j] == s[j + 1]);
        lemma_insert_sorted_at(x, t, p - 1);
        assert(t.take(p - 1) =~= s.skip(1).take(p - 1));
        assert(seq![s[0]] + (t.take(p - 1) + seq![x] + t.skip(p - 1)) =~= s.take(p) + seq![x]
            + s.skip(p));
    }
}

proof fn lemma_insert_sorted_props(x: Seq<char>, s: Seq<Seq<char>>)
    requires
        spec_sorted(s),
    ensures
        spec_sorted(spec_insert_sorted(x, s)),
        forall|y: Seq<char>|
            #[trigger] spec_insert_sorted(x, s).contains(y) <==> (y == x || s.contains(y)),
        spec_insert_sorted(x, s).len() == s.len() + 1,
    decreases s.len(),
{
    let r = spec_insert_sorted(x, s);
    if s.len() == 0 {
        assert(r =~= seq![x]);
        assert forall|y: Seq<char>| r.contains(y) <==> (y == x || s.contains(y)) by {
            if r.contains(y) {
                let w = choose|w: int| 0 <= w < r.len() && r[w] == y;
                assert(y == x);
            }
            if y == x {
                assert(r[0] == y);
                assert(r.contains(y));
            }
        }
    } else if spec_lex_le(x, s[0]) {
        assert(r =~= seq![x] + s);
        assert forall|i: int, j: int| 0 <= i < j < r.len() implies spec_lex_le(
            r[i],
            r[j],
        ) by {
            if i == 0 {
                if j == 1 {
                } else {
                    lemma_lex_le_trans(x, s[0], s[j - 1]);
                }
            }
        }
        assert forall|y: Seq<char>| r.contains(y) <==> (y == x || s.contains(y)) by {
            if r.contains(y) {
                let w = choose|w: int| 0 <= w < r.len() && r[w] == y;
                if w > 0 {
                    assert(s[w - 1] == y);
                }
            }
            if y == x {
                assert(r[0] == y);
            }
            if s.contains(y) {
                let w = choose|w: int| 0 <= w < s.len() && s[w] == y;
                assert(r[w + 1] == y);
            }
        }
    } else {
        let t = s.drop_first();
        assert(forall|i: int, j: int|
            0 <= i < j < t.len() ==> spec_lex_le(#[trigger] t[i], #[trigger] t[j]));
        lemma_insert_sorted_props(x, t);
        let rt = spec_insert_sorted(x, t);
        assert(r =~= seq![s[0]] + rt);
        lemma_lex_le_total(x, s[0]);
        assert(spec_lex_le(s[0], x));
        assert forall|i: int, j: int| 0 <= i < j < r.len() implies spec_lex_le(
            r[i],
            r[j],
        ) by {
            if i == 0 {
                assert(rt.contains(rt[j - 1]));
                if rt[j - 1] == x {
                } else {
                    assert(t.contains(rt[j - 1]));
                    let w = choose|w: int| 0 <= w < t.len() && t[w] == rt[j - 1];
                    assert(s[w + 1] == rt[j - 1]);
                    assert(spec_lex_le(s[0], s[w + 1]));
                }
            }
        }
        assert forall|y: Seq<char>| r.contains(y) <==> (y == x || s.contains(y)) by {
            if r.contains(y) {
                let w = choose|w: int| 0 <= w < r.len() && r[w] == y;
                if w == 0 {
                    assert(s[0] == y);
                    assert(s.contains(y));
                } else {
                    assert(rt[w - 1] == y);
                    assert(rt.contains(y));
                    if y != x {
                        assert(t.contains(y));
                        let u = choose|u: int| 0 <= u < t.len() && t[u] == y;
                        assert(s[u + 1] == y);
                    }
                }
            }
            if y == x || t.contains(y) {
                assert(spec_insert_sorted(x, t).contains(y));
                let w = choose|w: int| 0 <= w < rt.len() && rt[w] == y;
                assert(r[w + 1] == y);
                assert(r.contains(y));
            }
            if s.contains(y) && y != x {
                let w = choose|w: int| 0 <= w < s.len() && s[w] == y;
                if w == 0 {
                    assert(r[0] == y);
                } else {
                    assert(t[w - 1] == y);
                    assert(t.contains(y));
                }
            }
        }
    }
}

/// Law: sorting arranges exactly the given elements in nondecreasing
/// lexicographic order.
pub proof fn lemma_sort_props(s: Seq<Seq<char>>)
    ensures
        spec_sorted(spec_sort(s)),
        forall|y: Seq<char>| #[trigger] spec_sort(s).contains(y) <==> s.contains(y),
        spec_sort(s).len() == s.len(),
    decreases s.len(),
{
    if s.len() > 0 {
        let t = s.drop_last();
        lemma_sort_props(t);
        lemma_insert_sorted_props(s.last(), spec_sort(t));
        assert(spec_sort(s) == spec_insert_sorted(s.last(), spec_sort(t)));
        assert forall|y: Seq<char>| spec_sort(s).contains(y) <==> s.contains(y) by {
            if spec_sort(s).contains(y) {
                if y == s.last() {
                    assert(s[s.len() - 1] == y);
                } else {
                    assert(spec_sort(t).contains(y));
                    assert(t.contains(y));
                    let w = choose|w: int| 0 <= w < t.len() && t[w] == y;
                    assert(s[w] == y);
                }
            }
            if s.contains(y) {
                let w = choose|w: int| 0 <= w < s.len() && s[w] == y;
                if w < s.len() - 1 {
                    assert(t[w] == y);
                    assert(t.contains(y));
                }
            }
        }
    }
}

fn sorted_insert(v: &mut Vec<String>, x: String)
    ensures
        final(v).deep_view() == spec_insert_sorted(x@, old(v).deep_view()),
{
    let n = v.len();
    let mut p: usize = 0;
    loop
        invariant
            p <= n,
            n == v@.len(),
            v == old(v),
            forall|j: int| 0 <= j < p ==> !spec_lex_le(x@, v.deep_view()[j]),
        ensures
            p <= n,
            v == old(v),
            forall|j: int| 0 <= j < p ==> !spec_lex_le(x@, v.deep_view()[j]),
            p < n ==> spec_lex_le(x@, v.deep_view()[p as int]),
        decreases n - p,
    {
        if p >= n {
            break ;
        }
        if lex_le(x.as_str(), v[p].as_str()) {
            break ;
        }
        p += 1;
    }
    proof {
        lemma_insert_sorted_at(x@, v.deep_view(), p as int);
    }
    let ghost old_dv = v.deep_view();
    v.insert(p, x);
    proof {
        assert(v.deep_view() =~= old_dv.take(p as int) + seq![x@] + old_dv.skip(p as int));
    }
}

fn sort_names(names: Vec<String>) -> (r: Vec<String>)
    ensures
        r.deep_view() == spec_sort(names.deep_view()),
{
    let n = names.len();
    let mut out: Vec<String> = Vec::new();
    let mut k: usize = 0;
    proof {
        assert(names.deep_view().take(0) =~= Seq::<Seq<char>>::empty());
        assert(out.deep_view() =~= spec_sort(names.deep_view().take(0)));
    }
    while k < n
        invariant
            k <= n,
            n == names@.len(),
            out.deep_view() == spec_sort(names.deep_view().take(k as int)),
        decreases n - k,
    {
        proof {
            assert(names.deep_view().take(k + 1).drop_last() =~= names.deep_view().take(k as int));
            assert(names.deep_view().take(k + 1).last() == names.deep_view()[k as int]);
            assert(names.deep_view()[k as int] == names@[k as int]@);
        }
        sorted_insert(&mut out, names[k].clone());
        k += 1;
    }
    proof {
        assert(names.deep_view().take(n as int) =~= names.deep_view());
    }
    out
}

/// The normalized bare package names the manifest declares, each once, in
/// lexicographic order.
pub fn pyproject_dependency_names(pyproject: &str) -> (names: Vec<String>)
    ensures
        names.deep_view() == spec_sort(
            spec_dedup(spec_normalized(spec_parse_manifest(pyproject@))),
        ),
{
    let unique = dependency_names_in_order(pyproject);
    sort_names(unique)
}

/// The normalized bare package names the manifest declares, each once, in
/// order of first appearance.
pub fn dependency_names_in_order(pyproject: &str) -> (names: Vec<String>)
    ensures
        names.deep_view() == spec_dedup(spec_normalized(spec_parse_manifest(pyproject@))),
{
    let deps = parse_pyproject_dependencies(pyproject);
    let mut names: Vec<String> = Vec::new();
    let mut k: usize = 0;
    let n = deps.len();
    proof {
        assert(deps.deep_view().take(0) =~= Seq::<Seq<char>>::empty());
        assert(names.deep_view() =~= spec_dedup(spec_normalized(deps.deep_view().take(0))));
    }
    while k < n
        invariant
            k <= n,
            n == deps@.len(),
            deps.deep_view() == spec_parse_manifest(pyproject@),
            names.deep_view() == spec_dedup(spec_normalized(deps.deep_view().take(k as int))),
        decreases n - k,
    {
        let ghost taken = deps.deep_view().take(k as int);
        proof {
            assert(deps.deep_view().take(k + 1) =~= taken.push(deps.deep_view()[k as int]));
            lemma_normalized_push(taken, deps.deep_view()[k as int]);
            assert(deps.deep_view()[k as int] == deps@[k as int]@);
        }
        match normalize_dependency_name(deps[k].as_str()) {
            Some(name) => {
                proof {
                    assert(spec_normalized(taken.push(deps.deep_view()[k as int]))
                        =~= spec_normalized(taken).push(name@));
                    assert(spec_normalized(taken).push(name@).drop_last() =~= spec_normalized(
                        taken,
                    ));
                }
                if !vec_contains_string(&names, &name) {
                    names.push(name);
                }
            },
            None => {
                proof {
                    assert(spec_normalized(taken.push(deps.deep_view()[k as int]))
                        =~= spec_normalized(taken));
                }
            },
        }
        k += 1;
    }
    proof {
        assert(deps.deep_view().take(n as int) =~= deps.deep_view());
    }
    names
}

/// A character that opens a specifier suffix: an environment marker, a
/// direct reference, a version constraint, or an extras list.
pub open spec fn token_char(c: char) -> bool {
    c == ';' || c == '@' || version_op(c) || c == '['
}

/// A bare package name: nonempty, no whitespace at either edge, and no
/// specifier-token characters anywhere.
pub open spec fn bare_name(name: Seq<char>) -> bool {
    &&& name.len() > 0
    &&& !is_space(name[0])
    &&& !is_space(name.last())
    &&& forall|j: int| 0 <= j < name.len() ==> !token_char(name[j])
}

proof fn lemma_find_vop_concat(a: Seq<char>, b: Seq<char>)
    requires
        forall|j: int| 0 <= j < a.len() ==> !version_op(a[j]),
    ensures
        spec_find_vop(a + b) == a.len() + spec_find_vop(b),
    decreases a.len(),
{
    if a.len() == 0 {
        assert(a + b =~= b);
    } else {
        assert((a + b)[0] == a[0]);
        assert((a + b).drop_first() =~= a.drop_first() + b);
        lemma_find_vop_concat(a.drop_first(), b);
    }
}

proof fn lemma_cut_at_char(name: Seq<char>, w: Seq<char>, c: char)
    requires
        name.len() > 0,
        !is_space(name[0]),
        !is_space(name.last()),
        forall|j: int| 0 <= j < name.len() ==> name[j] != c,
    ensures
        spec_trim((name + w).take(spec_find_char(name + w, c))) == name + spec_trim_end(
            w.take(spec_find_char(w, c)),
        ),
{
    lemma_find_char(w, c);
    lemma_find_char_concat(name, w, c);
    let k = spec_find_char(w, c);
    assert((name + w).take(name.len() + k) =~= name + w.take(k));
    lemma_trim_concat(name, w.take(k));
}

proof fn lemma_cut_keeps_head(w: Seq<char>, c: char)
    requires
        w.len() > 0,
        w[0] != c,
        !is_space(w[0]),
    ensures
        spec_trim_end(w.take(spec_find_char(w, c))).len() > 0,
        spec_trim_end(w.take(spec_find_char(w, c)))[0] == w[0],
{
    lemma_find_char(w, c);
    let k = spec_find_char(w, c);
    assert(k >= 1);
    let t = w.take(k);
    assert(t[0] == w[0]);
    let w2 = spec_trim_end(t);
    if w2.len() == 0 {
        lemma_trim_end_empty_all_space(t);
        assert(is_space(t[0]));
        assert(false);
    }
    lemma_trim_end_prefix(t);
    assert(w2 == t.take(w2.len() as int));
    assert(w2[0] == t[0]);
}

proof fn lemma_cut_drops_all(w: Seq<char>, c: char)
    requires
        w.len() == 0 || w[0] == c,
    ensures
        spec_trim_end(w.take(spec_find_char(w, c))) == Seq::<char>::empty(),
{
    assert(spec_find_char(w, c) == 0);
    assert(w.take(0) =~= Seq::<char>::empty());
    assert(spec_trim_end(Seq::<char>::empty()) =~= Seq::<char>::empty());
}

/// Law: a specifier that is a bare package name followed by an environment
/// marker (`;...`), a direct reference (`@...`), a version constraint, or an
/// extras list (`[...]`) — or by nothing — normalizes to exactly the bare
/// name before that token.
pub proof fn lemma_normalize_extracts_bare_name(name: Seq<char>, suffix: Seq<char>)
    requires
        bare_name(name),
        suffix.len() > 0 ==> token_char(suffix[0]),
    ensures
        spec_normalize(name + suffix) == Some(name),
{
    let s = name + suffix;
    // The environment-marker cut.
    lemma_cut_at_char(name, suffix, ';');
    let w1 = spec_trim_end(suffix.take(spec_find_char(suffix, ';')));
    let t1 = spec_trim(s.take(spec_find_char(s, ';')));
    assert(t1 == name + w1);
    assert(t1.len() > 0);
    if suffix.len() == 0 || suffix[0] == ';' {
        lemma_cut_drops_all(suffix, ';');
    } else {
        lemma_cut_keeps_head(suffix, ';');
    }
    assert(w1.len() == 0 || (w1[0] == suffix[0] && token_char(w1[0]) && w1[0] != ';'));
    // The direct-reference cut.
    lemma_cut_at_char(name, w1, '@');
    let w2 = spec_trim_end(w1.take(spec_find_char(w1, '@')));
    let t2 = spec_trim(t1.take(spec_find_char(t1, '@')));
    assert(t2 == name + w2);
    assert(t2.len() > 0);
    if w1.len() == 0 || w1[0] == '@' {
        lemma_cut_drops_all(w1, '@');
    } else {
        lemma_cut_keeps_head(w1, '@');
    }
    assert(w2.len() == 0 || (w2[0] == w1[0] && token_char(w2[0]) && w2[0] != ';' && w2[0] != '@'));
    // The version-constraint cut.
    lemma_find_vop_concat(name, w2);
    lemma_find_vop(w2);
    let k3 = spec_find_vop(w2);
    let w3 = w2.take(k3);
    let t3 = t2.take(spec_find_vop(t2));
    assert(t3 =~= name + w3);
    if w2.len() == 0 || version_op(w2[0]) {
        assert(k3 == 0);
        assert(w3 =~= Seq::<char>::empty());
    } else {
        assert(k3 >= 1);
        assert(w3[0] == w2[0]);
    }
    assert(w3.len() == 0 || w3[0] == '[');
    // The extras cut.
    lemma_cut_at_char(name, w3, '[');
    let w4 = spec_trim_end(w3.take(spec_find_char(w3, '[')));
    let t4 = spec_trim(t3.take(spec_find_char(t3, '[')));
    assert(t4 == name + w4);
    lemma_cut_drops_all(w3, '[');
    assert(w4 =~= Seq::<char>::empty());
    assert(t4 =~= name);
    assert(t4.len() > 0);
}

/// Law: manifest parsing is deterministic. Two parses of the same text
/// yield the same specifier list, and hence the same normalized name list.
pub proof fn lemma_parse_manifest_deterministic(
    text: Seq<char>,
    r1: Seq<Seq<char>>,
    r2: Seq<Seq<char>>,
)
    requires
        r1 == spec_parse_manifest(text),
        r2 == spec_parse_manifest(text),
    ensures
        r1 == r2,
        spec_sort(spec_dedup(spec_normalized(r1))) == spec_sort(spec_dedup(spec_normalized(r2))),
{
}

/// The manifest-wide installation check: every declared dependency is
/// present, and the manifest declares at least one.
pub fn deps_all_installed(present: &Vec<bool>) -> (r: bool)
    ensures
        r == (present@.len() > 0 && forall|i: int| 0 <= i < present@.len() ==> present@[i]),
{
    let n = present.len();
    if n == 0 {
        return false;
    }
    let mut i: usize = 0;
    loop
        invariant
            i <= n,
            n == present@.len(),
            forall|j: int| 0 <= j < i ==> present@[j],
        ensures
            i <= n,
            forall|j: int| 0 <= j < i ==> present@[j],
            i < n ==> !present@[i as int],
        decreases n - i,
    {
        if i >= n {
            break ;
        }
        if !present[i] {
            break ;
        }
        i += 1;
    }
    i == n
}

} // verus!
