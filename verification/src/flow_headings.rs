//! Recognising solution-method and sub-question headings in answer text.
use vstd::prelude::*;
use crate::text::{
    all_digits, chars_of, find, has_prefix, has_suffix, is_all_digits, lines, lines_of, slice_of,
    starts_with_str, ends_with_str, string_of, trim, trim_end, trim_end_of, trim_of, trim_start,
    trim_start_of, views, find_first, eq_chars,
};

verus! {

// ---------------------------------------------------------------------------
// Specification
// ---------------------------------------------------------------------------

/// Repeatedly removes the suffix `p` (`str::trim_end_matches` with a string).
pub open spec fn strip_suffix_all(s: Seq<char>, p: Seq<char>) -> Seq<char>
    decreases s.len(),
{
    if p.len() > 0 && has_suffix(s, p) {
        strip_suffix_all(s.take(s.len() - p.len()), p)
    } else {
        s
    }
}

/// Removes a `\noindent` prefix and a `\textbf{...}` wrapper once each.
pub open spec fn unwrap_heading(v: Seq<char>) -> Seq<char> {
    let v1 = if has_prefix(v, "\\noindent"@) {
        trim_start(v.skip("\\noindent"@.len() as int))
    } else {
        v
    };
    if has_prefix(v1, "\\textbf{"@) && has_suffix(v1.skip("\\textbf{"@.len() as int), "}"@) {
        trim(v1.subrange("\\textbf{"@.len() as int, v1.len() - 1))
    } else {
        v1
    }
}

/// A heading line with its `\par`, `\\`, `\noindent` and `\textbf{}` decoration removed.
pub open spec fn heading_core(line: Seq<char>) -> Seq<char> {
    let v0 = trim(line);
    let v1 = trim_end(strip_suffix_all(v0, "\\par"@));
    let v2 = trim_end(strip_suffix_all(v1, "\\\\"@));
    trim(unwrap_heading(v2))
}

/// After `open digits close` at the start of `t`, the rest with leading
/// whitespace removed.
pub open spec fn after_part_number(t: Seq<char>, open: char, close: char) -> Option<Seq<char>> {
    if t.len() > 0 && t[0] == open {
        let rest = t.drop_first();
        match find(rest, seq![close]) {
            Some(e) => if 0 < e < rest.len() && all_digits(rest.take(e)) {
                Some(rest.skip(e + 1))
            } else {
                None
            },
            None => None,
        }
    } else {
        None
    }
}

/// The text after a leading `(n)` or `（n）` sub-question number.
pub open spec fn without_part_number(value: Seq<char>) -> Seq<char> {
    let t = trim_start(value);
    match after_part_number(t, '(', ')') {
        Some(r) => trim_start(r),
        None => match after_part_number(t, '（', '）') {
            Some(r) => trim_start(r),
            None => t,
        },
    }
}

/// A heading that names a solution method (解法…, 別解…, 【解法…, 【別解…).
pub open spec fn is_method_heading(value: Seq<char>) -> bool {
    let core = without_part_number(value);
    has_prefix(core, "解法"@) || has_prefix(core, "別解"@) || has_prefix(core, "【解法"@)
        || has_prefix(core, "【別解"@)
}

/// A line that is nothing but a sub-question number such as `(2)`.
pub open spec fn is_part_heading(value: Seq<char>) -> bool {
    let t = trim(value);
    ||| (after_part_number(t, '(', ')') matches Some(r) && trim(r).len() == 0)
    ||| (after_part_number(t, '（', '）') matches Some(r) && trim(r).len() == 0)
}

/// Leading `、`, `,` and spaces removed.
pub open spec fn trim_start_separators(s: Seq<char>) -> Seq<char>
    decreases s.len(),
{
    if s.len() > 0 && (s[0] == '、' || s[0] == ',' || s[0] == ' ') {
        trim_start_separators(s.drop_first())
    } else {
        s
    }
}

/// The rest of `value` after the sub-question marker `expected`, an optional
/// `では` and separators; none when `value` does not start with the marker.
pub open spec fn after_part_marker(value: Seq<char>, expected: Seq<char>) -> Option<Seq<char>> {
    let t = trim_start(value);
    if has_prefix(t, expected) {
        let rest = trim_start(t.skip(expected.len() as int));
        let rest2 = if has_prefix(rest, "では"@) {
            rest.skip("では"@.len() as int)
        } else {
            rest
        };
        Some(trim_start_separators(rest2))
    } else {
        None
    }
}

/// The cores of lines, those that are non-empty and at most 160 characters long
/// and name a solution method.
pub open spec fn method_headings_of(ls: Seq<Seq<char>>) -> Seq<Seq<char>>
    decreases ls.len(),
{
    if ls.len() == 0 {
        seq![]
    } else {
        let core = heading_core(ls.last());
        let prev = method_headings_of(ls.drop_last());
        if core.len() > 0 && core.len() <= 160 && is_method_heading(core) {
            prev.push(core)
        } else {
            prev
        }
    }
}

/// The cores of lines that are sub-question numbers (as they appear in order).
pub open spec fn part_heading_cores(ls: Seq<Seq<char>>) -> Seq<Seq<char>>
    decreases ls.len(),
{
    if ls.len() == 0 {
        seq![]
    } else {
        let core = heading_core(ls.last());
        let prev = part_heading_cores(ls.drop_last());
        if is_part_heading(core) {
            prev.push(core)
        } else {
            prev
        }
    }
}

/// The first occurrence of every value, in order.
pub open spec fn first_occurrences(ls: Seq<Seq<char>>) -> Seq<Seq<char>>
    decreases ls.len(),
{
    if ls.len() == 0 {
        seq![]
    } else {
        let prev = first_occurrences(ls.drop_last());
        if ls.drop_last().contains(ls.last()) {
            prev
        } else {
            prev.push(ls.last())
        }
    }
}

// ---------------------------------------------------------------------------
// Implementation
// ---------------------------------------------------------------------------

fn strip_suffix_all_chars(s: &Vec<char>, lit: &str) -> (r: Vec<char>)
    ensures
        r@ == strip_suffix_all(s@, lit@),
{
    let p = chars_of(lit);
    let mut k: usize = s.len();
    assert(s@.take(k as int) =~= s@);
    while p.len() > 0 && p.len() <= k && crate::text::ends_with(&slice_of(s, 0, k), &p)
        invariant
            k <= s.len(),
            p@ == lit@,
            strip_suffix_all(s@, p@) == strip_suffix_all(s@.take(k as int), p@),
        decreases k,
    {
        let ghost t = s@.take(k as int);
        assert(t.take(t.len() - p@.len()) =~= s@.take(k - p@.len()));
        k -= p.len();
    }
    let r = slice_of(s, 0, k);
    assert(r@ =~= s@.take(k as int));
    r
}

pub fn heading_core_chars(line: &Vec<char>) -> (r: Vec<char>)
    ensures
        r@ == heading_core(line@),
{
    let v0 = trim_of(line);
    let a = strip_suffix_all_chars(&v0, "\\par");
    let v1 = trim_end_of(&a);
    let b = strip_suffix_all_chars(&v1, "\\\\");
    let v2 = trim_end_of(&b);
    let v3 = if starts_with_str(&v2, "\\noindent") {
        let n = chars_of("\\noindent");
        let rest = slice_of(&v2, n.len(), v2.len());
        assert(rest@ =~= v2@.skip("\\noindent"@.len() as int));
        trim_start_of(&rest)
    } else {
        v2
    };
    let pre = chars_of("\\textbf{");
    let v4 = if starts_with_str(&v3, "\\textbf{") {
        let rest = slice_of(&v3, pre.len(), v3.len());
        assert(rest@ =~= v3@.skip("\\textbf{"@.len() as int));
        if ends_with_str(&rest, "}") {
            proof {
                reveal_strlit("}");
            }
            let inner = slice_of(&v3, pre.len(), v3.len() - 1);
            trim_of(&inner)
        } else {
            v3
        }
    } else {
        v3
    };
    trim_of(&v4)
}

/// A heading line with its LaTeX decoration removed.
pub fn strip_solution_heading_wrapper(line: &str) -> (r: String)
    ensures
        r@ == heading_core(line@),
{
    let v = chars_of(line);
    let r = heading_core_chars(&v);
    string_of(&r)
}

fn after_part_number_chars(t: &Vec<char>, open: char, close: char) -> (r: Option<Vec<char>>)
    ensures
        match after_part_number(t@, open, close) {
            Some(x) => r is Some && r->0@ == x,
            None => r is None,
        },
{
    if t.len() == 0 || t[0] != open {
        return None;
    }
    let rest = slice_of(t, 1, t.len());
    assert(rest@ =~= t@.drop_first());
    let mut c: Vec<char> = Vec::new();
    c.push(close);
    assert(c@ =~= seq![close]);
    match find_first(&rest, &c) {
        Some(e) => {
            assert(find(rest@, seq![close]) == Some(e as int));
            if 0 < e && e < rest.len() {
                let number = slice_of(&rest, 0, e);
                assert(number@ =~= rest@.take(e as int));
                if is_all_digits(&number) {
                    let after = slice_of(&rest, e + 1, rest.len());
                    assert(after@ =~= rest@.skip(e + 1));
                    return Some(after);
                }
            }
            None
        },
        None => {
            assert(find(rest@, seq![close]) is None);
            None
        },
    }
}

pub fn without_part_number_chars(value: &Vec<char>) -> (r: Vec<char>)
    ensures
        r@ == without_part_number(value@),
{
    let t = trim_start_of(value);
    match after_part_number_chars(&t, '(', ')') {
        Some(r) => trim_start_of(&r),
        None => match after_part_number_chars(&t, '（', '）') {
            Some(r) => trim_start_of(&r),
            None => t,
        },
    }
}

pub fn is_method_heading_chars(value: &Vec<char>) -> (b: bool)
    ensures
        b == is_method_heading(value@),
{
    let core = without_part_number_chars(value);
    starts_with_str(&core, "解法") || starts_with_str(&core, "別解") || starts_with_str(
        &core,
        "【解法",
    ) || starts_with_str(&core, "【別解")
}

/// Whether `value` names a solution method, possibly after a sub-question number.
pub fn is_solution_method_heading(value: &str) -> (b: bool)
    ensures
        b == is_method_heading(value@),
{
    let v = chars_of(value);
    is_method_heading_chars(&v)
}

pub fn is_part_heading_chars(value: &Vec<char>) -> (b: bool)
    ensures
        b == is_part_heading(value@),
{
    let t = trim_of(value);
    match after_part_number_chars(&t, '(', ')') {
        Some(r) => {
            let rt = trim_of(&r);
            if rt.len() == 0 {
                return true;
            }
        },
        None => {},
    }
    match after_part_number_chars(&t, '（', '）') {
        Some(r) => {
            let rt = trim_of(&r);
            rt.len() == 0
        },
        None => false,
    }
}

/// Whether `value` is a standalone sub-question number such as `(2)`.
pub fn is_standalone_part_heading(value: &str) -> (b: bool)
    ensures
        b == is_part_heading(value@),
{
    let v = chars_of(value);
    is_part_heading_chars(&v)
}

pub fn after_part_marker_chars(value: &Vec<char>, expected: &Vec<char>) -> (r: Option<Vec<char>>)
    ensures
        match after_part_marker(value@, expected@) {
            Some(x) => r is Some && r->0@ == x,
            None => r is None,
        },
{
    let t = trim_start_of(value);
    if !crate::text::starts_with(&t, expected) {
        return None;
    }
    let rest0 = slice_of(&t, expected.len(), t.len());
    assert(rest0@ =~= t@.skip(expected@.len() as int));
    let rest = trim_start_of(&rest0);
    let rest2 = if starts_with_str(&rest, "では") {
        let d = chars_of("では");
        let r = slice_of(&rest, d.len(), rest.len());
        assert(r@ =~= rest@.skip("では"@.len() as int));
        r
    } else {
        rest
    };
    let mut i: usize = 0;
    assert(rest2@.skip(0) =~= rest2@);
    while i < rest2.len() && (rest2[i] == '、' || rest2[i] == ',' || rest2[i] == ' ')
        invariant
            i <= rest2.len(),
            trim_start_separators(rest2@) == trim_start_separators(rest2@.skip(i as int)),
        decreases rest2.len() - i,
    {
        assert(rest2@.skip(i as int).drop_first() =~= rest2@.skip(i + 1));
        i += 1;
    }
    let out = slice_of(&rest2, i, rest2.len());
    assert(out@ =~= rest2@.skip(i as int));
    Some(out)
}

/// The rest of `value` after the sub-question marker `expected`.
pub fn strip_leading_part_marker(value: &str, expected: &str) -> (r: Option<String>)
    ensures
        match after_part_marker(value@, expected@) {
            Some(x) => r is Some && r->0@ == x,
            None => r is None,
        },
{
    let v = chars_of(value);
    let e = chars_of(expected);
    match after_part_marker_chars(&v, &e) {
        Some(x) => Some(string_of(&x)),
        None => None,
    }
}

/// The solution-method headings that the answer states, as displayed.
pub fn extract_solution_method_headings(solution: &str) -> (r: Vec<String>)
    ensures
        r@.map_values(|s: String| s@) == method_headings_of(lines(solution@)),
{
    let v = chars_of(solution);
    let ls = lines_of(&v);
    let ghost lv = lines(solution@);
    let mut out: Vec<String> = Vec::new();
    let mut i: usize = 0;
    while i < ls.len()
        invariant
            i <= ls.len(),
            ls@.len() == lv.len(),
            forall|j: int| 0 <= j < ls@.len() ==> #[trigger] ls@[j]@ == lv[j],
            out@.map_values(|s: String| s@) == method_headings_of(lv.take(i as int)),
        decreases ls.len() - i,
    {
        let core = heading_core_chars(&ls[i]);
        proof {
            assert(lv.take(i + 1).drop_last() =~= lv.take(i as int));
            assert(lv.take(i + 1).last() == ls@[i as int]@);
        }
        if core.len() > 0 && core.len() <= 160 && is_method_heading_chars(&core) {
            let s = string_of(&core);
            let ghost pv = out@.map_values(|s: String| s@);
            out.push(s);
            assert(out@.map_values(|s: String| s@) =~= pv.push(core@));
        }
        i += 1;
    }
    assert(lv.take(ls@.len() as int) =~= lv);
    out
}

/// The standalone sub-question headings of the answer, each once, as displayed.
pub fn extract_solution_part_headings(solution: &str) -> (r: Vec<String>)
    ensures
        r@.map_values(|s: String| s@) == first_occurrences(part_heading_cores(lines(solution@))),
{
    let v = chars_of(solution);
    let ls = lines_of(&v);
    let ghost lv = lines(solution@);
    let mut all: Vec<Vec<char>> = Vec::new();
    let mut out: Vec<String> = Vec::new();
    let mut i: usize = 0;
    while i < ls.len()
        invariant
            i <= ls.len(),
            ls@.len() == lv.len(),
            forall|j: int| 0 <= j < ls@.len() ==> #[trigger] ls@[j]@ == lv[j],
            views(all@) == part_heading_cores(lv.take(i as int)),
            out@.map_values(|s: String| s@) == first_occurrences(views(all@)),
        decreases ls.len() - i,
    {
        let core = heading_core_chars(&ls[i]);
        proof {
            assert(lv.take(i + 1).drop_last() =~= lv.take(i as int));
            assert(lv.take(i + 1).last() == ls@[i as int]@);
        }
        if is_part_heading_chars(&core) {
            // seen before?
            let mut seen = false;
            let mut k: usize = 0;
            while k < all.len()
                invariant
                    k <= all.len(),
                    seen == exists|j: int| 0 <= j < k && views(all@)[j] == core@,
                decreases all.len() - k,
            {
                assert(views(all@)[k as int] == all@[k as int]@);
                if eq_chars(&all[k], &core) {
                    seen = true;
                }
                k += 1;
            }
            let ghost prev_all = views(all@);
            let ghost prev_out = out@.map_values(|s: String| s@);
            proof {
                if seen {
                    let j = choose|j: int| 0 <= j < all@.len() && views(all@)[j] == core@;
                    assert(prev_all.contains(core@));
                } else {
                    assert(!prev_all.contains(core@));
                }
            }
            let c2 = slice_of(&core, 0, core.len());
            assert(c2@ =~= core@);
            all.push(c2);
            assert(views(all@) =~= prev_all.push(core@));
            assert(views(all@).drop_last() =~= prev_all);
            if !seen {
                let s = string_of(&core);
                out.push(s);
                assert(out@.map_values(|s: String| s@) =~= prev_out.push(core@));
            }
        }
        i += 1;
    }
    assert(lv.take(ls@.len() as int) =~= lv);
    out
}

} // verus!
