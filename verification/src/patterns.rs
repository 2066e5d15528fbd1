//! The pattern library's matching rules: normalised keys for comparing texts,
//! the similarity of an extracted proposal to a stored pattern, the action
//! recommended for each proposal, and how an accepted proposal is merged.
use vstd::prelude::*;
use crate::models::{
    PatternFacets, PatternFull, PatternProposal, PatternProposalStrategy, PatternStrategy, PatternStrategyInput,
    PatternUpdate,
};
use crate::flow_normalize::{insert_sorted, lemma_insert_sorted, strictly_increasing};
use crate::text::{decimal, decimal_of_wide, is_str, chars_of, contains_str, contains, contains_chars, eq_chars, join, join_chars, lines, lines_of, push_all, push_str, string_of, trim, trim_of, views};

verus! {

// ---------------------------------------------------------------------------
// Unicode case and character classes (std)
// ---------------------------------------------------------------------------

/// What `char::is_alphanumeric` returns: whether `c` is Unicode Alphabetic or Numeric.
pub uninterp spec fn alphanumeric(c: char) -> bool;

/// What `char::to_lowercase` yields for `c`: its Unicode lower-case mapping (one or more characters).
pub uninterp spec fn lower_chars(c: char) -> Seq<char>;

/// What `str::to_lowercase` returns for a text.
pub uninterp spec fn lower_case(s: Seq<char>) -> Seq<char>;

/// Calls `char::is_alphanumeric`. Trusted: the result is `alphanumeric(c)`.
#[verifier::external_body]
fn is_alphanumeric(c: char) -> (b: bool)
    ensures
        b == alphanumeric(c),
{
    c.is_alphanumeric()
}

/// Calls `char::to_lowercase` and collects the characters it yields.
/// Trusted: they are `lower_chars(c)`, in order.
#[verifier::external_body]
fn char_lowercase(c: char) -> (r: Vec<char>)
    ensures
        r@ == lower_chars(c),
{
    c.to_lowercase().collect()
}

/// Calls `str::to_lowercase`. Trusted: the result is `lower_case(s)`.
#[verifier::external_body]
fn str_lowercase(s: &str) -> (r: String)
    ensures
        r@ == lower_case(s@),
{
    s.to_lowercase()
}

// ---------------------------------------------------------------------------
// Keys
// ---------------------------------------------------------------------------

/// The comparison key of a text: its letters and digits, lower-cased.
pub open spec fn key(s: Seq<char>) -> Seq<char>
    decreases s.len(),
{
    if s.len() == 0 {
        seq![]
    } else {
        key(s.drop_last()) + (if alphanumeric(s.last()) { lower_chars(s.last()) } else { seq![] })
    }
}

pub fn key_chars(v: &Vec<char>) -> (r: Vec<char>)
    ensures
        r@ == key(v@),
{
    let mut out: Vec<char> = Vec::new();
    let mut i: usize = 0;
    while i < v.len()
        invariant
            i <= v.len(),
            out@ == key(v@.take(i as int)),
        decreases v.len() - i,
    {
        proof {
            assert(v@.take(i + 1).drop_last() =~= v@.take(i as int));
        }
        let c = v[i];
        if is_alphanumeric(c) {
            let l = char_lowercase(c);
            push_all(&mut out, &l);
        } else {
            assert(out@ + seq![] =~= out@);
        }
        i += 1;
    }
    assert(v@.take(v@.len() as int) =~= v@);
    out
}

pub fn proposal_key(value: &str) -> (r: String)
    ensures
        r@ == key(value@),
{
    let v = chars_of(value);
    string_of(&key_chars(&v))
}

/// Number of bytes of `c` in UTF-8.
pub open spec fn utf8_width(c: char) -> nat {
    if (c as u32) < 0x80 {
        1
    } else if (c as u32) < 0x800 {
        2
    } else if (c as u32) < 0x10000 {
        3
    } else {
        4
    }
}

/// Number of bytes of a text in UTF-8 (what `str::len` counts).
pub open spec fn utf8_len(s: Seq<char>) -> nat
    decreases s.len(),
{
    if s.len() == 0 {
        0
    } else {
        utf8_len(s.drop_last()) + utf8_width(s.last())
    }
}

/// Whether `s` takes at least `n` bytes in UTF-8.
pub fn utf8_len_at_least(v: &Vec<char>, n: usize) -> (b: bool)
    ensures
        b == (utf8_len(v@) >= n),
{
    if n == 0 {
        return true;
    }
    let mut total: usize = 0;
    let mut i: usize = 0;
    while i < v.len()
        invariant
            i <= v.len(),
            total == utf8_len(v@.take(i as int)),
            total < n,
        decreases v.len() - i,
    {
        proof {
            assert(v@.take(i + 1).drop_last() =~= v@.take(i as int));
        }
        let c = v[i];
        let w: usize = if (c as u32) < 0x80 {
            1
        } else if (c as u32) < 0x800 {
            2
        } else if (c as u32) < 0x10000 {
            3
        } else {
            4
        };
        if w >= n - total {
            proof {
                lemma_utf8_len_prefix(v@, i + 1);
            }
            return true;
        }
        total = total + w;
        i += 1;
    }
    assert(v@.take(v@.len() as int) =~= v@);
    false
}

pub proof fn lemma_utf8_len_prefix(s: Seq<char>, i: int)
    requires
        0 <= i <= s.len(),
    ensures
        utf8_len(s.take(i)) <= utf8_len(s),
    decreases s.len() - i,
{
    if i < s.len() {
        lemma_utf8_len_prefix(s, i + 1);
        assert(s.take(i + 1).drop_last() =~= s.take(i));
    } else {
        assert(s.take(i) =~= s);
    }
}

// ---------------------------------------------------------------------------
// Lists of values
// ---------------------------------------------------------------------------

/// The trimmed non-blank values, each kept only where no earlier kept value
/// has the same lower-case form.
pub open spec fn cleaned(values: Seq<Seq<char>>) -> Seq<Seq<char>>
    decreases values.len(),
{
    if values.len() == 0 {
        seq![]
    } else {
        let prev = cleaned(values.drop_last());
        let t = trim(values.last());
        if t.len() > 0 && !prev.map_values(|x: Seq<char>| lower_case(x)).contains(lower_case(t)) {
            prev.push(t)
        } else {
            prev
        }
    }
}

pub open spec fn string_views(v: Seq<String>) -> Seq<Seq<char>> {
    v.map_values(|x: String| x@)
}

pub fn clean_values(values: &Vec<String>) -> (r: Vec<String>)
    ensures
        string_views(r@) == cleaned(string_views(values@)),
{
    let mut out: Vec<String> = Vec::new();
    let mut seen: Vec<Vec<char>> = Vec::new();
    let mut i: usize = 0;
    while i < values.len()
        invariant
            i <= values.len(),
            string_views(out@) == cleaned(string_views(values@).take(i as int)),
            views(seen@) == string_views(out@).map_values(|x: Seq<char>| lower_case(x)),
        decreases values.len() - i,
    {
        proof {
            assert(string_views(values@).take(i + 1).drop_last() =~= string_views(values@).take(i as int));
        }
        let t = trim_of(&chars_of(values[i].as_str()));
        let ts = string_of(&t);
        let low = chars_of(str_lowercase(ts.as_str()).as_str());
        if t.len() > 0 && !contains_seq(&seen, &low) {
            let ghost so = string_views(out@);
            let ghost ss = views(seen@);
            out.push(ts);
            seen.push(low);
            assert(string_views(out@) =~= so.push(t@));
            assert(views(seen@) =~= ss.push(lower_case(t@)));
            assert(string_views(out@).map_values(|x: Seq<char>| lower_case(x)) =~= ss.push(lower_case(t@)));
        }
        i += 1;
    }
    assert(string_views(values@).take(values@.len() as int) =~= string_views(values@));
    out
}

/// Whether `w` is one of the texts of `ws`.
pub fn contains_seq(ws: &Vec<Vec<char>>, w: &Vec<char>) -> (b: bool)
    ensures
        b == views(ws@).contains(w@),
{
    let mut k: usize = 0;
    while k < ws.len()
        invariant
            k <= ws.len(),
            forall|j: int| 0 <= j < k ==> #[trigger] views(ws@)[j] != w@,
        decreases ws.len() - k,
    {
        if eq_chars(&ws[k], w) {
            assert(views(ws@)[k as int] == w@);
            return true;
        }
        k += 1;
    }
    false
}

/// The trimmed non-blank lines of a text.
pub open spec fn kept_lines(ls: Seq<Seq<char>>) -> Seq<Seq<char>>
    decreases ls.len(),
{
    if ls.len() == 0 {
        seq![]
    } else {
        let t = trim(ls.last());
        kept_lines(ls.drop_last()) + (if t.len() > 0 { seq![t] } else { seq![] })
    }
}

pub open spec fn keys_of(ls: Seq<Seq<char>>) -> Seq<Seq<char>> {
    ls.map_values(|x: Seq<char>| key(x))
}

/// `lines` with each trimmed non-blank addition appended whose key is new.
pub open spec fn appended(lines0: Seq<Seq<char>>, additions: Seq<Seq<char>>) -> Seq<Seq<char>>
    decreases additions.len(),
{
    if additions.len() == 0 {
        lines0
    } else {
        let prev = appended(lines0, additions.drop_last());
        let v = trim(additions.last());
        if v.len() > 0 && !keys_of(prev).contains(key(v)) {
            prev.push(v)
        } else {
            prev
        }
    }
}

/// A text's non-blank lines (trimmed) with the new additions appended, one per line.
pub open spec fn unique_text(base: Seq<char>, additions: Seq<Seq<char>>) -> Seq<char> {
    join(appended(kept_lines(lines(base)), additions), "\n"@)
}

fn keys_exec(ls: &Vec<Vec<char>>) -> (r: Vec<Vec<char>>)
    ensures
        views(r@) == keys_of(views(ls@)),
{
    let mut out: Vec<Vec<char>> = Vec::new();
    let mut i: usize = 0;
    while i < ls.len()
        invariant
            i <= ls.len(),
            views(out@) == keys_of(views(ls@).take(i as int)),
        decreases ls.len() - i,
    {
        let ghost before = views(out@);
        let k = key_chars(&ls[i]);
        out.push(k);
        assert(views(out@) =~= before.push(key(ls@[i as int]@)));
        assert(keys_of(views(ls@).take(i + 1)) =~= keys_of(views(ls@).take(i as int)).push(key(ls@[i as int]@)));
        i += 1;
    }
    assert(views(ls@).take(ls@.len() as int) =~= views(ls@));
    out
}

fn kept_lines_exec(text: &Vec<char>) -> (r: Vec<Vec<char>>)
    ensures
        views(r@) == kept_lines(lines(text@)),
{
    let ls = lines_of(text);
    assert(views(ls@) =~= lines(text@));
    let mut kept: Vec<Vec<char>> = Vec::new();
    let mut i: usize = 0;
    while i < ls.len()
        invariant
            i <= ls.len(),
            views(kept@) == kept_lines(views(ls@).take(i as int)),
        decreases ls.len() - i,
    {
        proof {
            assert(views(ls@).take(i + 1).drop_last() =~= views(ls@).take(i as int));
        }
        let t = trim_of(&ls[i]);
        let ghost before = views(kept@);
        if t.len() > 0 {
            kept.push(t);
            assert(views(kept@) =~= before + seq![t@]);
        } else {
            assert(views(kept@) =~= before + seq![]);
        }
        i += 1;
    }
    assert(views(ls@).take(ls@.len() as int) =~= views(ls@));
    kept
}

fn appended_exec(lines0: Vec<Vec<char>>, additions: &Vec<Vec<char>>) -> (r: Vec<Vec<char>>)
    ensures
        views(r@) == appended(views(lines0@), views(additions@)),
{
    let mut out = lines0;
    let ghost l0 = views(out@);
    let mut seen = keys_exec(&out);
    let mut i: usize = 0;
    while i < additions.len()
        invariant
            i <= additions.len(),
            views(out@) == appended(l0, views(additions@).take(i as int)),
            views(seen@) == keys_of(views(out@)),
        decreases additions.len() - i,
    {
        proof {
            assert(views(additions@).take(i + 1).drop_last() =~= views(additions@).take(i as int));
        }
        let v = trim_of(&additions[i]);
        let k = key_chars(&v);
        if v.len() > 0 && !contains_seq(&seen, &k) {
            let ghost so = views(out@);
            let ghost ss = views(seen@);
            out.push(v);
            seen.push(k);
            assert(views(out@) =~= so.push(v@));
            assert(views(seen@) =~= ss.push(key(v@)));
            assert(keys_of(so.push(v@)) =~= keys_of(so).push(key(v@)));
        }
        i += 1;
    }
    assert(views(additions@).take(additions@.len() as int) =~= views(additions@));
    out
}

fn to_char_vecs(v: &Vec<String>) -> (r: Vec<Vec<char>>)
    ensures
        views(r@) == string_views(v@),
{
    let mut out: Vec<Vec<char>> = Vec::new();
    let mut i: usize = 0;
    while i < v.len()
        invariant
            i <= v.len(),
            views(out@) == string_views(v@.take(i as int)),
        decreases v.len() - i,
    {
        let ghost before = views(out@);
        let c = chars_of(v[i].as_str());
        out.push(c);
        assert(views(out@) =~= before.push(v@[i as int]@));
        assert(string_views(v@.take(i + 1)) =~= string_views(v@.take(i as int)).push(v@[i as int]@));
        i += 1;
    }
    assert(v@.take(v@.len() as int) =~= v@);
    out
}

/// Appends to a text the additions whose keys it lacks, one per line.
pub fn append_unique_text(base: &str, additions: &Vec<String>) -> (r: String)
    ensures
        r@ == unique_text(base@, string_views(additions@)),
{
    let b = chars_of(base);
    let kept = kept_lines_exec(&b);
    let adds = to_char_vecs(additions);
    let all = appended_exec(kept, &adds);
    let nl = chars_of("\n");
    string_of(&join_chars(&all, &nl))
}

/// How many values of `left` have a non-empty key that some value of `right` shares.
pub open spec fn overlap(left: Seq<Seq<char>>, right: Seq<Seq<char>>) -> nat
    decreases left.len(),
{
    if left.len() == 0 {
        0
    } else {
        let k = key(left.last());
        overlap(left.drop_last(), right) + (if k.len() > 0 && keys_of(right).contains(k) { 1nat } else { 0nat })
    }
}

pub fn overlap_count(left: &Vec<Vec<char>>, right: &Vec<Vec<char>>) -> (r: usize)
    ensures
        r == overlap(views(left@), views(right@)),
{
    let rk = keys_exec(right);
    let mut n: usize = 0;
    let mut i: usize = 0;
    while i < left.len()
        invariant
            i <= left.len(),
            n == overlap(views(left@).take(i as int), views(right@)),
            n <= i,
            views(rk@) == keys_of(views(right@)),
        decreases left.len() - i,
    {
        proof {
            assert(views(left@).take(i + 1).drop_last() =~= views(left@).take(i as int));
        }
        let k = key_chars(&left[i]);
        if k.len() > 0 && contains_seq(&rk, &k) {
            n = n + 1;
        }
        i += 1;
    }
    assert(views(left@).take(left@.len() as int) =~= views(left@));
    n
}

// ---------------------------------------------------------------------------
// Character pairs
// ---------------------------------------------------------------------------

/// The adjacent character pairs of a text, in order.
pub open spec fn pairs(s: Seq<char>) -> Seq<(char, char)> {
    Seq::new(if s.len() < 2 { 0 } else { (s.len() - 1) as nat }, |i: int| (s[i], s[i + 1]))
}

/// The distinct elements of `xs`, in order of first occurrence.
pub open spec fn distinct_pairs(xs: Seq<(char, char)>) -> Seq<(char, char)>
    decreases xs.len(),
{
    if xs.len() == 0 {
        seq![]
    } else {
        let prev = distinct_pairs(xs.drop_last());
        if prev.contains(xs.last()) {
            prev
        } else {
            prev.push(xs.last())
        }
    }
}

/// How many of `xs` occur in `ys`.
pub open spec fn count_in(xs: Seq<(char, char)>, ys: Seq<(char, char)>) -> nat
    decreases xs.len(),
{
    if xs.len() == 0 {
        0
    } else {
        count_in(xs.drop_last(), ys) + (if ys.contains(xs.last()) { 1nat } else { 0nat })
    }
}

/// Whether the share of the smaller pair set of the two keys that the other
/// contains is at least `num / den`; never where either key has no pair.
pub open spec fn pair_share_at_least(left: Seq<char>, right: Seq<char>, num: nat, den: nat) -> bool {
    let l = distinct_pairs(pairs(key(left)));
    let r = distinct_pairs(pairs(key(right)));
    let m = if l.len() <= r.len() { l.len() } else { r.len() };
    l.len() > 0 && r.len() > 0 && den * count_in(l, r) >= num * m
}

fn pairs_exec(s: &Vec<char>) -> (r: Vec<(char, char)>)
    ensures
        r@ == pairs(s@),
{
    let mut out: Vec<(char, char)> = Vec::new();
    if s.len() < 2 {
        assert(out@ =~= pairs(s@));
        return out;
    }
    let mut i: usize = 0;
    while i + 1 < s.len()
        invariant
            s.len() >= 2,
            i + 1 <= s.len(),
            out@.len() == i,
            forall|j: int| 0 <= j < i ==> #[trigger] out@[j] == (s@[j], s@[j + 1]),
        decreases s.len() - i,
    {
        out.push((s[i], s[i + 1]));
        i += 1;
    }
    assert(out@ =~= pairs(s@));
    out
}

fn has_pair(xs: &Vec<(char, char)>, x: (char, char)) -> (b: bool)
    ensures
        b == xs@.contains(x),
{
    let mut k: usize = 0;
    while k < xs.len()
        invariant
            k <= xs.len(),
            forall|j: int| 0 <= j < k ==> xs@[j] != x,
        decreases xs.len() - k,
    {
        if xs[k].0 == x.0 && xs[k].1 == x.1 {
            assert(xs@[k as int] == x);
            return true;
        }
        k += 1;
    }
    false
}

fn distinct_exec(xs: &Vec<(char, char)>) -> (r: Vec<(char, char)>)
    ensures
        r@ == distinct_pairs(xs@),
{
    let mut out: Vec<(char, char)> = Vec::new();
    let mut i: usize = 0;
    while i < xs.len()
        invariant
            i <= xs.len(),
            out@ == distinct_pairs(xs@.take(i as int)),
            out@.len() <= i,
        decreases xs.len() - i,
    {
        proof {
            assert(xs@.take(i + 1).drop_last() =~= xs@.take(i as int));
        }
        if !has_pair(&out, xs[i]) {
            out.push(xs[i]);
        }
        i += 1;
    }
    assert(xs@.take(xs@.len() as int) =~= xs@);
    out
}

fn count_in_exec(xs: &Vec<(char, char)>, ys: &Vec<(char, char)>) -> (r: usize)
    ensures
        r == count_in(xs@, ys@),
        r <= xs@.len(),
{
    let mut n: usize = 0;
    let mut i: usize = 0;
    while i < xs.len()
        invariant
            i <= xs.len(),
            n == count_in(xs@.take(i as int), ys@),
            n <= i,
        decreases xs.len() - i,
    {
        proof {
            assert(xs@.take(i + 1).drop_last() =~= xs@.take(i as int));
        }
        if has_pair(ys, xs[i]) {
            n = n + 1;
        }
        i += 1;
    }
    assert(xs@.take(xs@.len() as int) =~= xs@);
    n
}

/// The pair sets of two keys and how many of the first the second holds.
struct PairShare {
    shared: usize,
    left: usize,
    right: usize,
}

fn pair_share(left: &Vec<char>, right: &Vec<char>) -> (r: PairShare)
    ensures
        r.left == distinct_pairs(pairs(key(left@))).len(),
        r.right == distinct_pairs(pairs(key(right@))).len(),
        r.shared == count_in(distinct_pairs(pairs(key(left@))), distinct_pairs(pairs(key(right@)))),
        r.shared <= r.left,
{
    let lk = key_chars(left);
    let rk = key_chars(right);
    let l = distinct_exec(&pairs_exec(&lk));
    let r = distinct_exec(&pairs_exec(&rk));
    let shared = count_in_exec(&l, &r);
    PairShare { shared, left: l.len(), right: r.len() }
}

/// Whether `share` reaches `num / den` (with `den` at most 100).
fn share_at_least(share: &PairShare, num: u64, den: u64) -> (b: bool)
    requires
        0 < den <= 100,
        num <= 100,
        share.shared <= share.left,
    ensures
        b == ({
            let m = if share.left <= share.right { share.left } else { share.right };
            share.left > 0 && share.right > 0 && den * share.shared >= num * m
        }),
{
    if share.left == 0 || share.right == 0 {
        return false;
    }
    let m = if share.left <= share.right { share.left } else { share.right };
    let shared = share.shared as u128;
    let m = m as u128;
    let d = den as u128;
    let n = num as u128;
    assert(d * shared <= 100 * 0xFFFF_FFFF_FFFF_FFFFu128) by (nonlinear_arith)
        requires
            d <= 100,
            shared <= 0xFFFF_FFFF_FFFF_FFFFu128,
    ;
    assert(n * m <= 100 * 0xFFFF_FFFF_FFFF_FFFFu128) by (nonlinear_arith)
        requires
            n <= 100,
            m <= 0xFFFF_FFFF_FFFF_FFFFu128,
    ;
    d * shared >= n * m
}

// ---------------------------------------------------------------------------
// Similarity of a proposal to a stored pattern
// ---------------------------------------------------------------------------

/// Points and the reasons given for them.
pub struct Scored {
    pub score: int,
    pub reasons: Seq<Seq<char>>,
}

pub open spec fn scored(c: bool, points: int, reason: Seq<char>) -> Scored {
    if c {
        Scored { score: points, reasons: seq![reason] }
    } else {
        Scored { score: 0, reasons: seq![] }
    }
}

pub open spec fn plus(a: Scored, b: Scored) -> Scored {
    Scored { score: a.score + b.score, reasons: a.reasons + b.reasons }
}

pub open spec fn min_int(a: int, b: int) -> int {
    if a <= b {
        a
    } else {
        b
    }
}

/// Whether one key holds the other, both being at least `n` bytes long.
pub open spec fn near_keys(a: Seq<char>, b: Seq<char>, n: nat) -> bool {
    utf8_len(a) >= n && utf8_len(b) >= n && (contains(a, b) || contains(b, a))
}

pub open spec fn title_points(p: PatternProposal, q: PatternFull) -> Scored {
    let a = key(p.title@);
    let b = key(q.title@);
    if a == b && a.len() > 0 {
        scored(true, 100, "タイトルが一致"@)
    } else {
        scored(near_keys(a, b, 4), 8, "タイトルの中心語が共通"@)
    }
}

pub open spec fn proposal_titles(p: PatternProposal) -> Seq<Seq<char>> {
    p.strategies@.map_values(|s: PatternProposalStrategy| s.title@)
}

pub open spec fn pattern_titles(q: PatternFull) -> Seq<Seq<char>> {
    q.strategies@.map_values(|s: PatternStrategy| s.title@)
}

pub open spec fn facet_overlap(p: PatternProposal, q: PatternFull) -> nat {
    overlap(string_views(p.domains@), string_views(q.facets.domains@))
        + overlap(string_views(p.goals@), string_views(q.facets.goals@))
        + overlap(string_views(p.operations@), string_views(q.facets.operations@))
        + overlap(string_views(p.structures@), string_views(q.facets.structures@))
        + overlap(string_views(p.situations@), string_views(q.facets.situations@))
}

/// The titles, descriptions and conditions of candidate strategies, run together.
pub open spec fn strategy_text(sts: Seq<PatternStrategy>) -> Seq<char>
    decreases sts.len(),
{
    if sts.len() == 0 {
        seq![]
    } else {
        strategy_text(sts.drop_last()) + sts.last().title@ + sts.last().description@ + sts.last().condition@
    }
}

/// The key of everything a stored pattern says, for looking up concept words.
pub open spec fn haystack(q: PatternFull) -> Seq<char> {
    key(q.title@ + q.summary@ + q.situation@ + q.principle@ + q.cautions@ + q.examples@ + strategy_text(
        q.strategies@,
    ) + join(string_views(q.tags@), seq![]) + join(string_views(q.facets.domains@), seq![]) + join(
        string_views(q.facets.goals@),
        seq![],
    ) + join(string_views(q.facets.operations@), seq![]) + join(string_views(q.facets.structures@), seq![])
        + join(string_views(q.facets.situations@), seq![]))
}

/// How many concept words (of two or more key characters) the text holds.
pub open spec fn concept_hits(concepts: Seq<Seq<char>>, hay: Seq<char>) -> nat
    decreases concepts.len(),
{
    if concepts.len() == 0 {
        0
    } else {
        let k = key(concepts.last());
        concept_hits(concepts.drop_last(), hay) + (if k.len() >= 2 && contains(hay, k) { 1nat } else { 0nat })
    }
}

pub open spec fn count_reason(prefix: Seq<char>, n: nat, suffix: Seq<char>) -> Seq<char> {
    prefix + decimal(n) + suffix
}

pub open spec fn title_share_points(p: PatternProposal, q: PatternFull) -> Scored {
    if pair_share_at_least(p.title@, q.title@, 1, 2) {
        scored(true, 10, "タイトルの語がほぼ一致"@)
    } else if pair_share_at_least(p.title@, q.title@, 35, 100) {
        scored(true, 6, "タイトルの語が広く共通"@)
    } else {
        scored(pair_share_at_least(p.title@, q.title@, 25, 100), 2, "タイトルの語が部分的に共通"@)
    }
}

pub open spec fn hint_points(p: PatternProposal, q: PatternFull) -> Scored {
    match p.possible_parent_pattern {
        Some(h) => if pair_share_at_least(h.title@, q.title@, 1, 2) {
            scored(true, 8, "AIが挙げた上位定石と一致"@)
        } else {
            scored(pair_share_at_least(h.title@, q.title@, 35, 100), 4, "AIが挙げた上位定石と語が共通"@)
        },
        None => scored(false, 0, seq![]),
    }
}

pub open spec fn summary_points(p: PatternProposal, q: PatternFull) -> Scored {
    scored(near_keys(key(p.summary@), key(q.summary@), 12), 4, "概要が近い"@)
}

pub open spec fn situation_points(p: PatternProposal, q: PatternFull) -> Scored {
    scored(near_keys(key(p.situation@), key(q.situation@), 8), 4, "想起すべき状況が近い"@)
}

pub open spec fn tag_points(p: PatternProposal, q: PatternFull) -> Scored {
    let t = overlap(string_views(p.tags@), string_views(q.tags@));
    scored(t > 0, min_int((2 * t) as int, 6), count_reason("タグ"@, t, "件が共通"@))
}

pub open spec fn facet_points(p: PatternProposal, q: PatternFull) -> Scored {
    let f = facet_overlap(p, q);
    scored(f > 0, min_int(f as int, 6), count_reason("分類軸"@, f, "件が共通"@))
}

pub open spec fn strategy_points(p: PatternProposal, q: PatternFull) -> Scored {
    let st = overlap(proposal_titles(p), pattern_titles(q));
    scored(st > 0, min_int((7 * st) as int, 14), count_reason("候補手法"@, st, "件が一致"@))
}

/// Concept words found in the pattern: two or more count with a reason, one counts a point.
pub open spec fn concept_points(p: PatternProposal, q: PatternFull) -> Scored {
    let h = concept_hits(string_views(p.search_concepts@), haystack(q));
    if h >= 2 {
        scored(true, min_int((2 * h) as int, 8), count_reason("検索概念"@, h, "件が一致"@))
    } else {
        Scored { score: if h == 1 { 1 } else { 0 }, reasons: seq![] }
    }
}

/// The similarity score of a proposal to a stored pattern, and its reasons in order.
#[verifier::opaque]
pub open spec fn similarity(p: PatternProposal, q: PatternFull) -> Scored {
    plus(
        plus(
            plus(
                plus(
                    plus(plus(plus(plus(title_points(p, q), summary_points(p, q)), situation_points(p, q)), tag_points(p, q)), facet_points(p, q)),
                    strategy_points(p, q),
                ),
                concept_points(p, q),
            ),
            title_share_points(p, q),
        ),
        hint_points(p, q),
    )
}

fn near_keys_exec(a: &Vec<char>, b: &Vec<char>, n: usize) -> (r: bool)
    ensures
        r == near_keys(a@, b@, n as nat),
{
    utf8_len_at_least(a, n) && utf8_len_at_least(b, n) && (contains_chars(a, b) || contains_chars(b, a))
}

fn proposal_titles_exec(p: &PatternProposal) -> (r: Vec<Vec<char>>)
    ensures
        views(r@) == proposal_titles(*p),
{
    let mut out: Vec<Vec<char>> = Vec::new();
    let mut i: usize = 0;
    while i < p.strategies.len()
        invariant
            i <= p.strategies.len(),
            views(out@) == proposal_titles(*p).take(i as int),
        decreases p.strategies.len() - i,
    {
        let ghost before = views(out@);
        out.push(chars_of(p.strategies[i].title.as_str()));
        assert(views(out@) =~= before.push(p.strategies@[i as int].title@));
        assert(proposal_titles(*p).take(i + 1) =~= proposal_titles(*p).take(i as int).push(p.strategies@[i as int].title@));
        i += 1;
    }
    assert(proposal_titles(*p).take(p.strategies@.len() as int) =~= proposal_titles(*p));
    out
}

fn pattern_titles_exec(q: &PatternFull) -> (r: Vec<Vec<char>>)
    ensures
        views(r@) == pattern_titles(*q),
{
    let mut out: Vec<Vec<char>> = Vec::new();
    let mut i: usize = 0;
    while i < q.strategies.len()
        invariant
            i <= q.strategies.len(),
            views(out@) == pattern_titles(*q).take(i as int),
        decreases q.strategies.len() - i,
    {
        let ghost before = views(out@);
        out.push(chars_of(q.strategies[i].title.as_str()));
        assert(views(out@) =~= before.push(q.strategies@[i as int].title@));
        assert(pattern_titles(*q).take(i + 1) =~= pattern_titles(*q).take(i as int).push(q.strategies@[i as int].title@));
        i += 1;
    }
    assert(pattern_titles(*q).take(q.strategies@.len() as int) =~= pattern_titles(*q));
    out
}

fn join_all(v: &Vec<String>) -> (r: Vec<char>)
    ensures
        r@ == join(string_views(v@), seq![]),
{
    let cv = to_char_vecs(v);
    let sep: Vec<char> = Vec::new();
    join_chars(&cv, &sep)
}

fn haystack_exec(q: &PatternFull) -> (r: Vec<char>)
    ensures
        r@ == haystack(*q),
{
    let mut text = chars_of(q.title.as_str());
    push_str(&mut text, q.summary.as_str());
    push_str(&mut text, q.situation.as_str());
    push_str(&mut text, q.principle.as_str());
    push_str(&mut text, q.cautions.as_str());
    push_str(&mut text, q.examples.as_str());
    let ghost head = text@;
    let mut i: usize = 0;
    while i < q.strategies.len()
        invariant
            i <= q.strategies.len(),
            text@ == head + strategy_text(q.strategies@.take(i as int)),
        decreases q.strategies.len() - i,
    {
        proof {
            assert(q.strategies@.take(i + 1).drop_last() =~= q.strategies@.take(i as int));
        }
        let st = &q.strategies[i];
        push_str(&mut text, st.title.as_str());
        push_str(&mut text, st.description.as_str());
        push_str(&mut text, st.condition.as_str());
        i += 1;
    }
    assert(q.strategies@.take(q.strategies@.len() as int) =~= q.strategies@);
    let j = join_all(&q.tags);
    push_all(&mut text, &j);
    let j = join_all(&q.facets.domains);
    push_all(&mut text, &j);
    let j = join_all(&q.facets.goals);
    push_all(&mut text, &j);
    let j = join_all(&q.facets.operations);
    push_all(&mut text, &j);
    let j = join_all(&q.facets.structures);
    push_all(&mut text, &j);
    let j = join_all(&q.facets.situations);
    push_all(&mut text, &j);
    assert(text@ =~= q.title@ + q.summary@ + q.situation@ + q.principle@ + q.cautions@ + q.examples@
        + strategy_text(q.strategies@) + join(string_views(q.tags@), seq![]) + join(string_views(q.facets.domains@), seq![])
        + join(string_views(q.facets.goals@), seq![]) + join(string_views(q.facets.operations@), seq![])
        + join(string_views(q.facets.structures@), seq![]) + join(string_views(q.facets.situations@), seq![]));
    key_chars(&text)
}

fn concept_hits_exec(concepts: &Vec<Vec<char>>, hay: &Vec<char>) -> (r: usize)
    ensures
        r == concept_hits(views(concepts@), hay@),
{
    let mut n: usize = 0;
    let mut i: usize = 0;
    while i < concepts.len()
        invariant
            i <= concepts.len(),
            n == concept_hits(views(concepts@).take(i as int), hay@),
            n <= i,
        decreases concepts.len() - i,
    {
        proof {
            assert(views(concepts@).take(i + 1).drop_last() =~= views(concepts@).take(i as int));
        }
        let k = key_chars(&concepts[i]);
        if k.len() >= 2 && contains_chars(hay, &k) {
            n = n + 1;
        }
        i += 1;
    }
    assert(views(concepts@).take(concepts@.len() as int) =~= views(concepts@));
    n
}

fn count_reason_exec(prefix: &str, n: u128, suffix: &str) -> (r: Vec<char>)
    ensures
        r@ == count_reason(prefix@, n as nat, suffix@),
{
    let mut out = chars_of(prefix);
    let d = decimal_of_wide(n);
    push_all(&mut out, &d);
    push_str(&mut out, suffix);
    out
}

fn title_share_exec(p: &PatternProposal, q: &PatternFull) -> (r: (bool, i64, Vec<char>))
    ensures
        scored(r.0, r.1 as int, r.2@) == title_share_points(*p, *q),
        0 <= r.1 <= 100,
{
    let a = chars_of(p.title.as_str());
    let b = chars_of(q.title.as_str());
    let sh = pair_share(&a, &b);
    if share_at_least(&sh, 1, 2) {
        (true, 10, chars_of("タイトルの語がほぼ一致"))
    } else if share_at_least(&sh, 35, 100) {
        (true, 6, chars_of("タイトルの語が広く共通"))
    } else {
        let c = share_at_least(&sh, 25, 100);
        (c, 2, chars_of("タイトルの語が部分的に共通"))
    }
}

fn hint_exec(p: &PatternProposal, q: &PatternFull) -> (r: (bool, i64, Vec<char>))
    ensures
        scored(r.0, r.1 as int, r.2@) == hint_points(*p, *q),
        0 <= r.1 <= 100,
{
    match &p.possible_parent_pattern {
        Some(h) => {
            let a = chars_of(h.title.as_str());
            let b = chars_of(q.title.as_str());
            let sh = pair_share(&a, &b);
            if share_at_least(&sh, 1, 2) {
                (true, 8, chars_of("AIが挙げた上位定石と一致"))
            } else {
                let c = share_at_least(&sh, 35, 100);
                (c, 4, chars_of("AIが挙げた上位定石と語が共通"))
            }
        },
        None => (false, 0, Vec::new()),
    }
}

fn capped(n: u128, factor: u128, cap: u128) -> (r: i64)
    requires
        1 <= factor <= 7,
        cap <= 14,
    ensures
        r == min_int(factor * n, cap as int),
{
    if n >= cap {
        assert(factor * n >= cap) by (nonlinear_arith)
            requires
                factor >= 1,
                n >= cap,
        ;
        cap as i64
    } else {
        assert(factor * n <= 7 * 14) by (nonlinear_arith)
            requires
                factor <= 7,
                n < cap,
                cap <= 14,
        ;
        if factor * n <= cap {
            (factor * n) as i64
        } else {
            cap as i64
        }
    }
}

fn as_scored(c: bool, points: i64, reason: Vec<char>) -> (r: (i64, Vec<Vec<char>>))
    requires
        0 <= points <= 100,
    ensures
        r.0 == scored(c, points as int, reason@).score,
        views(r.1@) == scored(c, points as int, reason@).reasons,
        0 <= r.0 <= 100,
{
    let mut v: Vec<Vec<char>> = Vec::new();
    if c {
        v.push(reason);
        assert(views(v@) =~= seq![reason@]);
        (points, v)
    } else {
        assert(views(v@) =~= Seq::<Seq<char>>::empty());
        (0, v)
    }
}

fn title_aspect(p: &PatternProposal, q: &PatternFull) -> (r: (i64, Vec<Vec<char>>))
    ensures
        r.0 == title_points(*p, *q).score,
        views(r.1@) == title_points(*p, *q).reasons,
        0 <= r.0 <= 100,
{
    let a = key_chars(&chars_of(p.title.as_str()));
    let b = key_chars(&chars_of(q.title.as_str()));
    if eq_chars(&a, &b) && a.len() > 0 {
        as_scored(true, 100, chars_of("タイトルが一致"))
    } else {
        let c = near_keys_exec(&a, &b, 4);
        as_scored(c, 8, chars_of("タイトルの中心語が共通"))
    }
}

fn summary_aspect(p: &PatternProposal, q: &PatternFull) -> (r: (i64, Vec<Vec<char>>))
    ensures
        r.0 == summary_points(*p, *q).score,
        views(r.1@) == summary_points(*p, *q).reasons,
        0 <= r.0 <= 100,
{
    let a = key_chars(&chars_of(p.summary.as_str()));
    let b = key_chars(&chars_of(q.summary.as_str()));
    let c = near_keys_exec(&a, &b, 12);
    as_scored(c, 4, chars_of("概要が近い"))
}

fn situation_aspect(p: &PatternProposal, q: &PatternFull) -> (r: (i64, Vec<Vec<char>>))
    ensures
        r.0 == situation_points(*p, *q).score,
        views(r.1@) == situation_points(*p, *q).reasons,
        0 <= r.0 <= 100,
{
    let a = key_chars(&chars_of(p.situation.as_str()));
    let b = key_chars(&chars_of(q.situation.as_str()));
    let c = near_keys_exec(&a, &b, 8);
    as_scored(c, 4, chars_of("想起すべき状況が近い"))
}

fn tag_aspect(p: &PatternProposal, q: &PatternFull) -> (r: (i64, Vec<Vec<char>>))
    ensures
        r.0 == tag_points(*p, *q).score,
        views(r.1@) == tag_points(*p, *q).reasons,
        0 <= r.0 <= 100,
{
    let t = overlap_count(&to_char_vecs(&p.tags), &to_char_vecs(&q.tags)) as u128;
    let pts = capped(t, 2, 6);
    let rs = count_reason_exec("タグ", t, "件が共通");
    as_scored(t > 0, pts, rs)
}

fn facet_aspect(p: &PatternProposal, q: &PatternFull) -> (r: (i64, Vec<Vec<char>>))
    ensures
        r.0 == facet_points(*p, *q).score,
        views(r.1@) == facet_points(*p, *q).reasons,
        0 <= r.0 <= 100,
{
    let f = overlap_count(&to_char_vecs(&p.domains), &to_char_vecs(&q.facets.domains)) as u128
        + overlap_count(&to_char_vecs(&p.goals), &to_char_vecs(&q.facets.goals)) as u128
        + overlap_count(&to_char_vecs(&p.operations), &to_char_vecs(&q.facets.operations)) as u128
        + overlap_count(&to_char_vecs(&p.structures), &to_char_vecs(&q.facets.structures)) as u128
        + overlap_count(&to_char_vecs(&p.situations), &to_char_vecs(&q.facets.situations)) as u128;
    let pts = capped(f, 1, 6);
    let rs = count_reason_exec("分類軸", f, "件が共通");
    as_scored(f > 0, pts, rs)
}

fn strategy_aspect(p: &PatternProposal, q: &PatternFull) -> (r: (i64, Vec<Vec<char>>))
    ensures
        r.0 == strategy_points(*p, *q).score,
        views(r.1@) == strategy_points(*p, *q).reasons,
        0 <= r.0 <= 100,
{
    let st = overlap_count(&proposal_titles_exec(p), &pattern_titles_exec(q)) as u128;
    let pts = capped(st, 7, 14);
    let rs = count_reason_exec("候補手法", st, "件が一致");
    as_scored(st > 0, pts, rs)
}

fn concept_aspect(p: &PatternProposal, q: &PatternFull) -> (r: (i64, Vec<Vec<char>>))
    ensures
        r.0 == concept_points(*p, *q).score,
        views(r.1@) == concept_points(*p, *q).reasons,
        0 <= r.0 <= 100,
{
    let hay = haystack_exec(q);
    let h = concept_hits_exec(&to_char_vecs(&p.search_concepts), &hay) as u128;
    if h >= 2 {
        let pts = capped(h, 2, 8);
        let rs = count_reason_exec("検索概念", h, "件が一致");
        as_scored(true, pts, rs)
    } else {
        let v: Vec<Vec<char>> = Vec::new();
        assert(views(v@) =~= Seq::<Seq<char>>::empty());
        (if h == 1 { 1 } else { 0 }, v)
    }
}

fn add_aspect(score: &mut i64, reasons: &mut Vec<Vec<char>>, part: (i64, Vec<Vec<char>>))
    requires
        0 <= *old(score) <= 800,
        0 <= part.0 <= 100,
    ensures
        *final(score) == *old(score) + part.0,
        views(final(reasons)@) == views(old(reasons)@) + views(part.1@),
{
    let (pts, mut rs) = part;
    *score = *score + pts;
    let ghost before = reasons@;
    let ghost added = rs@;
    reasons.append(&mut rs);
    assert(reasons@ =~= before + added);
    assert(views(reasons@) =~= views(before) + views(added));
}

/// Scores how close a proposal is to a stored pattern, with the reasons in order.
pub fn proposal_similarity(p: &PatternProposal, q: &PatternFull) -> (r: (i64, Vec<String>))
    ensures
        r.0 == similarity(*p, *q).score,
        string_views(r.1@) == similarity(*p, *q).reasons,
{
    proof {
        reveal(similarity);
    }
    let mut score: i64 = 0;
    let mut reasons: Vec<Vec<char>> = Vec::new();
    assert(views(reasons@) =~= Seq::<Seq<char>>::empty());
    add_aspect(&mut score, &mut reasons, title_aspect(p, q));
    add_aspect(&mut score, &mut reasons, summary_aspect(p, q));
    add_aspect(&mut score, &mut reasons, situation_aspect(p, q));
    add_aspect(&mut score, &mut reasons, tag_aspect(p, q));
    add_aspect(&mut score, &mut reasons, facet_aspect(p, q));
    add_aspect(&mut score, &mut reasons, strategy_aspect(p, q));
    add_aspect(&mut score, &mut reasons, concept_aspect(p, q));
    let (c, pts, rs) = title_share_exec(p, q);
    add_aspect(&mut score, &mut reasons, as_scored(c, pts, rs));
    let (c, pts, rs) = hint_exec(p, q);
    add_aspect(&mut score, &mut reasons, as_scored(c, pts, rs));
    let mut out: Vec<String> = Vec::new();
    let mut k: usize = 0;
    while k < reasons.len()
        invariant
            k <= reasons.len(),
            out@.len() == k,
            forall|j: int| 0 <= j < k ==> #[trigger] out@[j]@ == reasons@[j]@,
        decreases reasons.len() - k,
    {
        out.push(string_of(&reasons[k]));
        k += 1;
    }
    assert(string_views(out@) =~= views(reasons@));
    (score, out)
}

// ---------------------------------------------------------------------------
// Recommending what to do with a proposal
// ---------------------------------------------------------------------------

/// The position of the best-scoring candidate: the first of those with the highest score.
pub open spec fn best_index(p: PatternProposal, cands: Seq<PatternFull>) -> Option<int>
    decreases cands.len(),
{
    if cands.len() == 0 {
        None
    } else {
        let i = cands.len() - 1;
        match best_index(p, cands.drop_last()) {
            None => Some(i),
            Some(j) => if similarity(p, cands[i]).score > similarity(p, cands.drop_last()[j]).score {
                Some(i)
            } else {
                Some(j)
            },
        }
    }
}

/// What a proposal is told about the stored patterns it resembles.
pub struct Classification {
    pub matched_id: Option<i64>,
    pub matched_title: Option<Seq<char>>,
    pub reason: Seq<char>,
    pub action: Seq<char>,
}

pub open spec fn has_new_strategy(p: PatternProposal, m: PatternFull) -> bool {
    exists|k: int| 0 <= k < p.strategies@.len() && !keys_of(pattern_titles(m)).contains(key(#[trigger] p.strategies@[k].title@))
}

pub open spec fn has_new_caution(p: PatternProposal, m: PatternFull) -> bool {
    exists|k: int| 0 <= k < p.cautions@.len() && !contains(key(m.cautions@), key(#[trigger] p.cautions@[k]@))
}

/// Whether the stored pattern is the more general one that the proposal names.
pub open spec fn matches_parent_hint(p: PatternProposal, m: PatternFull) -> bool {
    match p.possible_parent_pattern {
        Some(h) => h.title@.len() >= 4 && pair_share_at_least(h.title@, m.title@, 1, 2),
        None => false,
    }
}

pub open spec fn score_based_action(score: int, p: PatternProposal, m: PatternFull) -> Seq<char> {
    if score >= 14 {
        "merge_into_existing"@
    } else if has_new_strategy(p, m) {
        "add_candidate_to_existing"@
    } else if has_new_caution(p, m) {
        "add_caution_to_existing"@
    } else {
        "duplicate"@
    }
}

/// The action recommended for a proposal that resembles a stored pattern with the given score.
pub open spec fn matched_action(score: int, p: PatternProposal, m: PatternFull) -> Seq<char> {
    let storage = p.recommended_storage@;
    let parent = matches_parent_hint(p, m);
    if score >= 100 {
        "duplicate"@
    } else if parent && (storage == "new_pattern"@ || storage == "child_pattern"@) {
        "create_child_pattern"@
    } else if storage == "example"@ {
        "add_example_to_existing"@
    } else if storage == "candidate_strategy"@ {
        if has_new_strategy(p, m) {
            "add_candidate_to_existing"@
        } else {
            "add_example_to_existing"@
        }
    } else if storage == "child_pattern"@ {
        if p.possible_parent_pattern is None || parent {
            "create_child_pattern"@
        } else {
            score_based_action(score, p, m)
        }
    } else if storage == "merge_existing"@ {
        "merge_into_existing"@
    } else if storage == "duplicate"@ {
        "duplicate"@
    } else if storage == "ignore"@ {
        "ignore"@
    } else {
        score_based_action(score, p, m)
    }
}

/// The classification of a proposal against the candidates found for it: the
/// best candidate counts where it scores at least 5.
pub open spec fn classification(p: PatternProposal, cands: Seq<PatternFull>) -> Classification {
    match best_index(p, cands) {
        Some(i) if similarity(p, cands[i]).score >= 5 => {
            let m = cands[i];
            let sim = similarity(p, m);
            Classification {
                matched_id: Some(m.id),
                matched_title: Some(m.title@),
                reason: join(sim.reasons, " / "@),
                action: matched_action(sim.score, p, m),
            }
        },
        _ => Classification {
            matched_id: None,
            matched_title: None,
            reason: "近い既存定石は見つかりませんでした"@,
            action: if p.recommended_storage@ == "ignore"@ { "ignore"@ } else { "create_new"@ },
        },
    }
}

/// `new` is `old` with the classification written into it and nothing else changed.
pub open spec fn classified(old: PatternProposal, new: PatternProposal, c: Classification) -> bool {
    &&& new == PatternProposal {
        matched_pattern_id: new.matched_pattern_id,
        matched_pattern_title: new.matched_pattern_title,
        similarity_reason: new.similarity_reason,
        action_recommendation: new.action_recommendation,
        ..old
    }
    &&& new.matched_pattern_id == c.matched_id
    &&& (match new.matched_pattern_title {
        Some(t) => c.matched_title == Some(t@),
        None => c.matched_title is None,
    })
    &&& new.similarity_reason@ == c.reason
    &&& new.action_recommendation@ == c.action
}

fn has_new_strategy_exec(p: &PatternProposal, m: &PatternFull) -> (b: bool)
    ensures
        b == has_new_strategy(*p, *m),
{
    let mt = pattern_titles_exec(m);
    let keys = keys_exec(&mt);
    let mut k: usize = 0;
    while k < p.strategies.len()
        invariant
            k <= p.strategies.len(),
            views(keys@) == keys_of(pattern_titles(*m)),
            forall|j: int| 0 <= j < k ==> keys_of(pattern_titles(*m)).contains(key(#[trigger] p.strategies@[j].title@)),
        decreases p.strategies.len() - k,
    {
        let kk = key_chars(&chars_of(p.strategies[k].title.as_str()));
        if !contains_seq(&keys, &kk) {
            return true;
        }
        k += 1;
    }
    false
}

fn has_new_caution_exec(p: &PatternProposal, m: &PatternFull) -> (b: bool)
    ensures
        b == has_new_caution(*p, *m),
{
    let existing = key_chars(&chars_of(m.cautions.as_str()));
    let mut k: usize = 0;
    while k < p.cautions.len()
        invariant
            k <= p.cautions.len(),
            existing@ == key(m.cautions@),
            forall|j: int| 0 <= j < k ==> contains(key(m.cautions@), key(#[trigger] p.cautions@[j]@)),
        decreases p.cautions.len() - k,
    {
        let kk = key_chars(&chars_of(p.cautions[k].as_str()));
        if !contains_chars(&existing, &kk) {
            return true;
        }
        k += 1;
    }
    false
}

fn matches_parent_hint_exec(p: &PatternProposal, m: &PatternFull) -> (b: bool)
    ensures
        b == matches_parent_hint(*p, *m),
{
    match &p.possible_parent_pattern {
        Some(h) => {
            let t = chars_of(h.title.as_str());
            if t.len() < 4 {
                return false;
            }
            let mt = chars_of(m.title.as_str());
            let sh = pair_share(&t, &mt);
            share_at_least(&sh, 1, 2)
        },
        None => false,
    }
}

fn matched_action_exec(score: i64, p: &PatternProposal, m: &PatternFull) -> (r: Vec<char>)
    ensures
        r@ == matched_action(score as int, *p, *m),
{
    let storage = chars_of(p.recommended_storage.as_str());
    let parent = matches_parent_hint_exec(p, m);
    let score_based = if score >= 14 {
        chars_of("merge_into_existing")
    } else if has_new_strategy_exec(p, m) {
        chars_of("add_candidate_to_existing")
    } else if has_new_caution_exec(p, m) {
        chars_of("add_caution_to_existing")
    } else {
        chars_of("duplicate")
    };
    assert(score_based@ == score_based_action(score as int, *p, *m));
    if score >= 100 {
        chars_of("duplicate")
    } else if parent && (is_str(&storage, "new_pattern") || is_str(&storage, "child_pattern")) {
        chars_of("create_child_pattern")
    } else if is_str(&storage, "example") {
        chars_of("add_example_to_existing")
    } else if is_str(&storage, "candidate_strategy") {
        if has_new_strategy_exec(p, m) {
            chars_of("add_candidate_to_existing")
        } else {
            chars_of("add_example_to_existing")
        }
    } else if is_str(&storage, "child_pattern") {
        if p.possible_parent_pattern.is_none() || parent {
            chars_of("create_child_pattern")
        } else {
            score_based
        }
    } else if is_str(&storage, "merge_existing") {
        chars_of("merge_into_existing")
    } else if is_str(&storage, "duplicate") {
        chars_of("duplicate")
    } else if is_str(&storage, "ignore") {
        chars_of("ignore")
    } else {
        score_based
    }
}

fn best_candidate(p: &PatternProposal, candidates: &Vec<PatternFull>) -> (best: Option<(usize, i64, Vec<String>)>)
    ensures
        match best_index(*p, candidates@) {
            None => best is None,
            Some(j) => best matches Some(b) && b.0 == j && b.0 < candidates@.len() && b.1 == similarity(*p, candidates@[j]).score
                && string_views(b.2@) == similarity(*p, candidates@[j]).reasons,
        },
{
    let mut best: Option<(usize, i64, Vec<String>)> = None;
    let mut i: usize = 0;
    while i < candidates.len()
        invariant
            i <= candidates.len(),
            match best_index(*p, candidates@.take(i as int)) {
                None => best is None,
                Some(j) => best matches Some(b) && b.0 == j && b.0 < i && b.1 == similarity(*p, candidates@[j]).score
                    && string_views(b.2@) == similarity(*p, candidates@[j]).reasons,
            },
        decreases candidates.len() - i,
    {
        proof {
            assert(candidates@.take(i + 1).drop_last() =~= candidates@.take(i as int));
        }
        let (score, reasons) = proposal_similarity(p, &candidates[i]);
        let replace = match &best {
            None => true,
            Some(b) => score > b.1,
        };
        if replace {
            best = Some((i, score, reasons));
        }
        i += 1;
    }
    assert(candidates@.take(candidates@.len() as int) =~= candidates@);
    best
}

/// Writes into a proposal which stored pattern it most resembles among the
/// candidates found for it, why, and what to do with it.
pub fn classify_pattern_proposal(p: &mut PatternProposal, candidates: &Vec<PatternFull>)
    ensures
        classified(*old(p), *final(p), classification(*old(p), candidates@)),
{
    let best = best_candidate(p, candidates);
    let ghost c = classification(*p, candidates@);
    match best {
        Some((j, score, reasons)) if score >= 5 => {
            let m = &candidates[j];
            let rv = to_char_vecs(&reasons);
            let sep = chars_of(" / ");
            let reason = join_chars(&rv, &sep);
            let action = matched_action_exec(score, p, m);
            p.matched_pattern_id = Some(m.id);
            p.matched_pattern_title = Some(m.title.clone());
            p.similarity_reason = string_of(&reason);
            p.action_recommendation = string_of(&action);
        },
        _ => {
            let storage = chars_of(p.recommended_storage.as_str());
            let action = if is_str(&storage, "ignore") { chars_of("ignore") } else { chars_of("create_new") };
            p.matched_pattern_id = None;
            p.matched_pattern_title = None;
            p.similarity_reason = string_of(&chars_of("近い既存定石は見つかりませんでした"));
            p.action_recommendation = string_of(&action);
        },
    }
}

// ---------------------------------------------------------------------------
// Checking a proposal
// ---------------------------------------------------------------------------

pub open spec fn all_short(values: Seq<Seq<char>>, max: nat) -> bool {
    forall|k: int| 0 <= k < values.len() ==> (#[trigger] values[k]).len() <= max
}

pub open spec fn list_ok(values: Vec<String>) -> bool {
    values@.len() <= 8 && all_short(string_views(values@), 200)
}

pub open spec fn strategy_ok(st: PatternProposalStrategy) -> bool {
    trim(st.title@).len() > 0 && st.title@.len() <= 60 && st.description@.len() <= 400 && st.condition@.len() <= 200
        && st.reasoning@.len() <= 200
}

pub open spec fn known_pattern_type(t: Seq<char>) -> bool {
    t == "strategy"@ || t == "technique"@ || t == "calculation_tip"@ || t == "check"@
}

pub open spec fn known_source_type(t: Seq<char>) -> bool {
    t == "solution_used"@ || t == "explanation_used"@ || t == "ai_inferred"@ || t == "image_import"@ || t
        == "ai_chat"@ || t == "manual"@
}

pub open spec fn known_storage(t: Seq<char>) -> bool {
    t == "new_pattern"@ || t == "child_pattern"@ || t == "example"@ || t == "candidate_strategy"@ || t
        == "merge_existing"@ || t == "duplicate"@ || t == "ignore"@
}

/// Why a proposal cannot be stored, if it cannot: the first rule it breaks.
/// `reusability_ok` says whether its reusability score is a finite number from 0 to 1.
pub open spec fn proposal_refusal(p: PatternProposal, reusability_ok: bool) -> Option<Seq<char>> {
    if trim(p.title@).len() == 0 {
        Some("定石候補のタイトルを入力してください"@)
    } else if p.title@.len() > 60 {
        Some("定石候補のタイトルが長すぎます"@)
    } else if p.summary@.len() > 300 {
        Some("定石候補の概要が長すぎます"@)
    } else if p.situation@.len() > 300 {
        Some("定石候補の状況が長すぎます"@)
    } else if p.principle@.len() > 400 {
        Some("定石候補の原則が長すぎます"@)
    } else if !known_pattern_type(p.pattern_type@) {
        Some("定石候補の種類が不正です"@)
    } else if !known_source_type(p.source_type@) {
        Some("定石候補の抽出根拠が不正です"@)
    } else if p.strategies@.len() == 0 || p.strategies@.len() > 6 {
        Some("候補手法は1〜6件で指定してください"@)
    } else if exists|k: int| 0 <= k < p.strategies@.len() && !strategy_ok(#[trigger] p.strategies@[k]) {
        Some("候補手法の必須項目または文字数が不正です"@)
    } else if !(list_ok(p.cautions) && list_ok(p.domains) && list_ok(p.goals) && list_ok(p.operations) && list_ok(
        p.structures,
    ) && list_ok(p.situations) && list_ok(p.tags)) {
        Some("定石候補の分類・注意事項が多すぎるか長すぎます"@)
    } else if p.raw_technique@.len() > 400 || p.generalization_reason@.len() > 200 || p.specificity_reason@.len() > 200 {
        Some("定石候補の抽象化に関する説明が長すぎます"@)
    } else if p.search_concepts@.len() > 8 || !all_short(string_views(p.search_concepts@), 30) {
        Some("検索用の概念語が多すぎるか長すぎます"@)
    } else if !(1 <= p.specificity_level <= 4) {
        Some("定石候補の抽象度は1〜4で指定してください"@)
    } else if !reusability_ok {
        Some("定石候補の再利用可能性は0〜1で指定してください"@)
    } else if !known_storage(p.recommended_storage@) {
        Some("定石候補の推奨保存方式が不正です"@)
    } else if (match p.possible_parent_pattern {
        Some(h) => trim(h.title@).len() == 0 || h.title@.len() > 60 || h.reason@.len() > 200,
        None => false,
    }) {
        Some("上位定石の候補が不正です"@)
    } else {
        None
    }
}

fn all_short_exec(values: &Vec<String>, max: usize) -> (b: bool)
    ensures
        b == all_short(string_views(values@), max as nat),
{
    let mut k: usize = 0;
    while k < values.len()
        invariant
            k <= values.len(),
            forall|j: int| 0 <= j < k ==> (#[trigger] string_views(values@)[j]).len() <= max,
        decreases values.len() - k,
    {
        if chars_of(values[k].as_str()).len() > max {
            assert(string_views(values@)[k as int].len() > max);
            return false;
        }
        k += 1;
    }
    true
}

fn list_ok_exec(values: &Vec<String>) -> (b: bool)
    ensures
        b == list_ok(*values),
{
    values.len() <= 8 && all_short_exec(values, 200)
}

fn text_len(s: &String) -> (n: usize)
    ensures
        n == s@.len(),
{
    chars_of(s.as_str()).len()
}

fn strategies_ok(p: &PatternProposal) -> (b: bool)
    ensures
        b == forall|k: int| 0 <= k < p.strategies@.len() ==> strategy_ok(#[trigger] p.strategies@[k]),
{
    let mut k: usize = 0;
    while k < p.strategies.len()
        invariant
            k <= p.strategies.len(),
            forall|j: int| 0 <= j < k ==> strategy_ok(#[trigger] p.strategies@[j]),
        decreases p.strategies.len() - k,
    {
        let st = &p.strategies[k];
        let title = chars_of(st.title.as_str());
        if is_blank_chars(&title) || title.len() > 60 || text_len(&st.description) > 400 || text_len(&st.condition)
            > 200 || text_len(&st.reasoning) > 200 {
            assert(!strategy_ok(p.strategies@[k as int]));
            return false;
        }
        k += 1;
    }
    true
}

fn is_blank_chars(v: &Vec<char>) -> (b: bool)
    ensures
        b == (trim(v@).len() == 0),
{
    trim_of(v).len() == 0
}

fn err(msg: &str) -> (r: Result<(), String>)
    ensures
        r matches Err(e) && e@ == msg@,
{
    Err(string_of(&chars_of(msg)))
}

/// Checks a proposal before it is classified or stored; `reusability_ok` says
/// whether its reusability score is a finite number from 0 to 1.
pub fn validate_proposal(p: &PatternProposal, reusability_ok: bool) -> (r: Result<(), String>)
    ensures
        match proposal_refusal(*p, reusability_ok) {
            Some(msg) => r matches Err(e) && e@ == msg,
            None => r is Ok,
        },
{
    let title = chars_of(p.title.as_str());
    if is_blank_chars(&title) {
        return err("定石候補のタイトルを入力してください");
    }
    if title.len() > 60 {
        return err("定石候補のタイトルが長すぎます");
    }
    if text_len(&p.summary) > 300 {
        return err("定石候補の概要が長すぎます");
    }
    if text_len(&p.situation) > 300 {
        return err("定石候補の状況が長すぎます");
    }
    if text_len(&p.principle) > 400 {
        return err("定石候補の原則が長すぎます");
    }
    let pt = chars_of(p.pattern_type.as_str());
    if !(is_str(&pt, "strategy") || is_str(&pt, "technique") || is_str(&pt, "calculation_tip") || is_str(&pt, "check")) {
        return err("定石候補の種類が不正です");
    }
    let st = chars_of(p.source_type.as_str());
    if !(is_str(&st, "solution_used") || is_str(&st, "explanation_used") || is_str(&st, "ai_inferred") || is_str(
        &st,
        "image_import",
    ) || is_str(&st, "ai_chat") || is_str(&st, "manual")) {
        return err("定石候補の抽出根拠が不正です");
    }
    if p.strategies.len() == 0 || p.strategies.len() > 6 {
        return err("候補手法は1〜6件で指定してください");
    }
    if !strategies_ok(p) {
        return err("候補手法の必須項目または文字数が不正です");
    }
    if !(list_ok_exec(&p.cautions) && list_ok_exec(&p.domains) && list_ok_exec(&p.goals) && list_ok_exec(&p.operations)
        && list_ok_exec(&p.structures) && list_ok_exec(&p.situations) && list_ok_exec(&p.tags)) {
        return err("定石候補の分類・注意事項が多すぎるか長すぎます");
    }
    if text_len(&p.raw_technique) > 400 || text_len(&p.generalization_reason) > 200 || text_len(&p.specificity_reason) > 200 {
        return err("定石候補の抽象化に関する説明が長すぎます");
    }
    if p.search_concepts.len() > 8 || !all_short_exec(&p.search_concepts, 30) {
        return err("検索用の概念語が多すぎるか長すぎます");
    }
    if !(1 <= p.specificity_level && p.specificity_level <= 4) {
        return err("定石候補の抽象度は1〜4で指定してください");
    }
    if !reusability_ok {
        return err("定石候補の再利用可能性は0〜1で指定してください");
    }
    let rs = chars_of(p.recommended_storage.as_str());
    if !(is_str(&rs, "new_pattern") || is_str(&rs, "child_pattern") || is_str(&rs, "example") || is_str(
        &rs,
        "candidate_strategy",
    ) || is_str(&rs, "merge_existing") || is_str(&rs, "duplicate") || is_str(&rs, "ignore")) {
        return err("定石候補の推奨保存方式が不正です");
    }
    match &p.possible_parent_pattern {
        Some(h) => {
            let t = chars_of(h.title.as_str());
            if is_blank_chars(&t) || t.len() > 60 || text_len(&h.reason) > 200 {
                return err("上位定石の候補が不正です");
            }
        },
        None => {},
    }
    Ok(())
}

// ---------------------------------------------------------------------------
// From proposals to stored patterns and back
// ---------------------------------------------------------------------------

/// A pattern type as stored: trimmed, `strategy` where blank.
pub open spec fn type_of(v: Seq<char>) -> Seq<char> {
    if trim(v).len() == 0 {
        "strategy"@
    } else {
        trim(v)
    }
}

pub fn normalized_type(value: &str) -> (r: String)
    ensures
        r@ == type_of(value@),
{
    let t = trim_of(&chars_of(value));
    if t.len() == 0 {
        string_of(&chars_of("strategy"))
    } else {
        string_of(&t)
    }
}

/// A relation type as stored: trimmed, the fallback where blank.
pub fn normalized_relation(value: &str, fallback: &str) -> (r: String)
    ensures
        r@ == (if trim(value@).len() == 0 { fallback@ } else { trim(value@) }),
{
    let t = trim_of(&chars_of(value));
    if t.len() == 0 {
        string_of(&chars_of(fallback))
    } else {
        string_of(&t)
    }
}

/// The stored form of the proposed candidate strategies: trimmed, numbered from 1, without ids.
pub open spec fn strategy_input_of(st: PatternProposalStrategy, index: int) -> (PatternStrategyInputView) {
    PatternStrategyInputView {
        id: None,
        parent_strategy_id: None,
        title: trim(st.title@),
        description: trim(st.description@),
        condition: trim(st.condition@),
        reasoning: trim(st.reasoning@),
        branch_label: seq![],
        sort_order: index + 1,
    }
}

/// A candidate strategy as values.
pub struct PatternStrategyInputView {
    pub id: Option<i64>,
    pub parent_strategy_id: Option<i64>,
    pub title: Seq<char>,
    pub description: Seq<char>,
    pub condition: Seq<char>,
    pub reasoning: Seq<char>,
    pub branch_label: Seq<char>,
    pub sort_order: int,
}

pub open spec fn input_view(s: PatternStrategyInput) -> PatternStrategyInputView {
    PatternStrategyInputView {
        id: s.id,
        parent_strategy_id: s.parent_strategy_id,
        title: s.title@,
        description: s.description@,
        condition: s.condition@,
        reasoning: s.reasoning@,
        branch_label: s.branch_label@,
        sort_order: s.sort_order as int,
    }
}

pub open spec fn input_views(v: Seq<PatternStrategyInput>) -> Seq<PatternStrategyInputView> {
    v.map_values(|s: PatternStrategyInput| input_view(s))
}

pub open spec fn proposal_inputs(p: PatternProposal) -> Seq<PatternStrategyInputView> {
    Seq::new(p.strategies@.len(), |i: int| strategy_input_of(p.strategies@[i], i))
}

fn trimmed_string(s: &String) -> (r: String)
    ensures
        r@ == trim(s@),
{
    string_of(&trim_of(&chars_of(s.as_str())))
}

pub fn proposal_strategy_inputs(p: &PatternProposal) -> (r: Vec<PatternStrategyInput>)
    requires
        p.strategies@.len() < i64::MAX,
    ensures
        input_views(r@) == proposal_inputs(*p),
{
    let mut out: Vec<PatternStrategyInput> = Vec::new();
    let mut i: usize = 0;
    while i < p.strategies.len()
        invariant
            i <= p.strategies.len(),
            p.strategies@.len() < i64::MAX,
            input_views(out@) == proposal_inputs(*p).take(i as int),
        decreases p.strategies.len() - i,
    {
        let st = &p.strategies[i];
        let item = PatternStrategyInput {
            id: None,
            parent_strategy_id: None,
            title: trimmed_string(&st.title),
            description: trimmed_string(&st.description),
            condition: trimmed_string(&st.condition),
            reasoning: trimmed_string(&st.reasoning),
            branch_label: String::new(),
            sort_order: i as i64 + 1,
        };
        let ghost before = input_views(out@);
        out.push(item);
        assert(input_view(item) == strategy_input_of(p.strategies@[i as int], i as int));
        assert(input_views(out@) =~= before.push(input_view(item)));
        assert(proposal_inputs(*p).take(i + 1) =~= proposal_inputs(*p).take(i as int).push(strategy_input_of(p.strategies@[i as int], i as int)));
        i += 1;
    }
    assert(proposal_inputs(*p).take(p.strategies@.len() as int) =~= proposal_inputs(*p));
    out
}

/// The example line that a proposal adds to an existing pattern: the concrete
/// technique, prefixed with the title where there is one.
pub open spec fn example_lines(p: PatternProposal) -> Seq<Seq<char>> {
    let raw = trim(p.raw_technique@);
    let title = trim(p.title@);
    if raw.len() > 0 {
        seq![if title.len() == 0 { raw } else { title + "："@ + raw }]
    } else if title.len() > 0 {
        seq![title]
    } else {
        seq![]
    }
}

pub fn proposal_example_lines(p: &PatternProposal) -> (r: Vec<String>)
    ensures
        string_views(r@) == example_lines(*p),
{
    let raw = trim_of(&chars_of(p.raw_technique.as_str()));
    let title = trim_of(&chars_of(p.title.as_str()));
    let mut out: Vec<String> = Vec::new();
    if raw.len() > 0 {
        if title.len() == 0 {
            out.push(string_of(&raw));
        } else {
            let mut l = title.clone();
            push_str(&mut l, "：");
            push_all(&mut l, &raw);
            out.push(string_of(&l));
        }
    } else if title.len() > 0 {
        out.push(string_of(&title));
    }
    assert(string_views(out@) =~= example_lines(*p));
    out
}

/// How a pattern came to be, for its `source_kind` column.
pub open spec fn source_kind(source_type: Seq<char>) -> Seq<char> {
    if source_type == "solution_used"@ || source_type == "explanation_used"@ {
        "problem_solution"@
    } else if source_type == "ai_inferred"@ {
        "problem_ai_inferred"@
    } else if source_type == "image_import"@ {
        "image_import"@
    } else if source_type == "ai_chat"@ {
        "ai_chat"@
    } else {
        "manual"@
    }
}

pub fn source_kind_for_proposal(source_type: &str) -> (r: &'static str)
    ensures
        r@ == source_kind(source_type@),
{
    let t = chars_of(source_type);
    if is_str(&t, "solution_used") || is_str(&t, "explanation_used") {
        "problem_solution"
    } else if is_str(&t, "ai_inferred") {
        "problem_ai_inferred"
    } else if is_str(&t, "image_import") {
        "image_import"
    } else if is_str(&t, "ai_chat") {
        "ai_chat"
    } else {
        "manual"
    }
}

pub open spec fn source_label(source_type: Seq<char>) -> Seq<char> {
    if source_type == "solution_used"@ {
        "既存解答で使用"@
    } else if source_type == "explanation_used"@ {
        "既存解説で使用"@
    } else if source_type == "ai_inferred"@ {
        "AI推定"@
    } else if source_type == "image_import"@ {
        "画像から取り込み"@
    } else if source_type == "ai_chat"@ {
        "AI Chatで作成"@
    } else {
        "手動で作成"@
    }
}

/// The one-line provenance note of a proposal.
pub open spec fn source_note(problem_id: i64, source_type: Seq<char>, reference: Seq<char>) -> Seq<char> {
    let label = source_label(source_type);
    let r = trim(reference);
    if problem_id > 0 {
        "Problem #"@ + decimal(problem_id as nat) + "から一般化（"@ + label + "）"@
    } else if r.len() == 0 {
        label
    } else {
        label + "（"@ + r + "）"@
    }
}

pub fn source_note_for_proposal(problem_id: i64, source_type: &str, reference: &str) -> (r: String)
    ensures
        r@ == source_note(problem_id, source_type@, reference@),
{
    let t = chars_of(source_type);
    let label = if is_str(&t, "solution_used") {
        chars_of("既存解答で使用")
    } else if is_str(&t, "explanation_used") {
        chars_of("既存解説で使用")
    } else if is_str(&t, "ai_inferred") {
        chars_of("AI推定")
    } else if is_str(&t, "image_import") {
        chars_of("画像から取り込み")
    } else if is_str(&t, "ai_chat") {
        chars_of("AI Chatで作成")
    } else {
        chars_of("手動で作成")
    };
    let r = trim_of(&chars_of(reference));
    if problem_id > 0 {
        let mut out = chars_of("Problem #");
        let d = decimal_of_wide(problem_id as u128);
        push_all(&mut out, &d);
        push_str(&mut out, "から一般化（");
        push_all(&mut out, &label);
        push_str(&mut out, "）");
        string_of(&out)
    } else if r.len() == 0 {
        string_of(&label)
    } else {
        let mut out = label;
        push_str(&mut out, "（");
        push_all(&mut out, &r);
        push_str(&mut out, "）");
        string_of(&out)
    }
}

/// The subject named by the root of a problem's bank folder; mathematics by default.
pub open spec fn subject_of(name: Seq<char>) -> Seq<char> {
    if contains(name, "物理"@) {
        "physics"@
    } else if contains(name, "化学"@) {
        "chemistry"@
    } else if contains(name, "生物"@) {
        "biology"@
    } else if contains(name, "英語"@) {
        "english"@
    } else if contains(name, "国語"@) {
        "japanese"@
    } else if contains(name, "情報"@) {
        "information"@
    } else if contains(name, "地理"@) || contains(name, "歴史"@) || contains(name, "公民"@) {
        "social_studies"@
    } else {
        "mathematics"@
    }
}

pub fn solution_subject_from_root_name(name: &str) -> (r: &'static str)
    ensures
        r@ == subject_of(name@),
{
    let n = chars_of(name);
    if contains_str(&n, "物理") {
        "physics"
    } else if contains_str(&n, "化学") {
        "chemistry"
    } else if contains_str(&n, "生物") {
        "biology"
    } else if contains_str(&n, "英語") {
        "english"
    } else if contains_str(&n, "国語") {
        "japanese"
    } else if contains_str(&n, "情報") {
        "information"
    } else if contains_str(&n, "地理") || contains_str(&n, "歴史") || contains_str(&n, "公民") {
        "social_studies"
    } else {
        "mathematics"
    }
}

/// A stored candidate strategy as an editable proposal strategy, numbered from 1.
pub open spec fn proposal_strategy_of(st: PatternStrategy, index: int, r: PatternProposalStrategy) -> bool {
    &&& r.title == st.title
    &&& r.description == st.description
    &&& r.condition == st.condition
    &&& r.reasoning == st.reasoning
    &&& r.sort_order == index + 1
}

/// The proposal that lets a stored pattern be rewritten: its texts, candidate
/// strategies, caution lines, facets and tags, marked as a manual source.
pub open spec fn edit_proposal_of(q: PatternFull, r: PatternProposal) -> bool {
    &&& r.proposal_id@ == "pattern-"@ + (if q.id < 0 { "-"@ + decimal((-q.id) as nat) } else { decimal(q.id as nat) })
    &&& r.raw_technique@ == Seq::<char>::empty()
    &&& r.title == q.title
    &&& r.pattern_type == q.pattern_type
    &&& r.summary == q.summary
    &&& r.situation == q.situation
    &&& r.principle == q.principle
    &&& r.strategies@.len() == q.strategies@.len()
    &&& forall|k: int| 0 <= k < q.strategies@.len() ==> proposal_strategy_of(q.strategies@[k], k, #[trigger] r.strategies@[k])
    &&& string_views(r.cautions@) == kept_lines(lines(q.cautions@))
    &&& r.domains@ == q.facets.domains@
    &&& r.goals@ == q.facets.goals@
    &&& r.operations@ == q.facets.operations@
    &&& r.structures@ == q.facets.structures@
    &&& r.situations@ == q.facets.situations@
    &&& r.tags@ == q.tags@
    &&& r.source_type@ == "manual"@
    &&& r.matched_pattern_id is None
    &&& r.matched_pattern_title is None
    &&& r.similarity_reason@ == Seq::<char>::empty()
    &&& r.action_recommendation@ == "create_new"@
    &&& r.generalization_reason@ == Seq::<char>::empty()
    &&& r.specificity_level == 0
    &&& r.search_concepts@.len() == 0
    &&& !r.is_overly_specific
    &&& !r.is_overly_general
    &&& r.specificity_reason@ == Seq::<char>::empty()
    &&& r.possible_parent_pattern is None
    &&& r.generalization_decision@ == Seq::<char>::empty()
    &&& r.recommended_storage@ == Seq::<char>::empty()
    &&& r.generalization_pass_count == 0
}

fn id_text(id: i64) -> (r: Vec<char>)
    ensures
        r@ == (if id < 0 { "-"@ + decimal((-id) as nat) } else { decimal(id as nat) }),
{
    if id < 0 {
        let mut out = chars_of("-");
        let mag: u128 = (0i128 - id as i128) as u128;
        let d = decimal_of_wide(mag);
        push_all(&mut out, &d);
        out
    } else {
        decimal_of_wide(id as u128)
    }
}

/// Turns a stored pattern (loaded by the caller) into a proposal that can be rewritten.
pub fn pattern_edit_proposal(pattern: &PatternFull) -> (r: PatternProposal)
    requires
        pattern.strategies@.len() < i64::MAX,
    ensures
        edit_proposal_of(*pattern, r),
{
    let mut pid = chars_of("pattern-");
    let it = id_text(pattern.id);
    push_all(&mut pid, &it);
    let mut strategies: Vec<PatternProposalStrategy> = Vec::new();
    let mut i: usize = 0;
    while i < pattern.strategies.len()
        invariant
            i <= pattern.strategies.len(),
            pattern.strategies@.len() < i64::MAX,
            strategies@.len() == i,
            forall|k: int| 0 <= k < i ==> proposal_strategy_of(pattern.strategies@[k], k, #[trigger] strategies@[k]),
        decreases pattern.strategies.len() - i,
    {
        let st = &pattern.strategies[i];
        strategies.push(PatternProposalStrategy {
            title: st.title.clone(),
            description: st.description.clone(),
            condition: st.condition.clone(),
            reasoning: st.reasoning.clone(),
            sort_order: i as i64 + 1,
        });
        i += 1;
    }
    let kept = kept_lines_exec(&chars_of(pattern.cautions.as_str()));
    let mut cautions: Vec<String> = Vec::new();
    let mut k: usize = 0;
    while k < kept.len()
        invariant
            k <= kept.len(),
            cautions@.len() == k,
            forall|j: int| 0 <= j < k ==> #[trigger] cautions@[j]@ == kept@[j]@,
        decreases kept.len() - k,
    {
        cautions.push(string_of(&kept[k]));
        k += 1;
    }
    assert(string_views(cautions@) =~= views(kept@));
    PatternProposal {
        proposal_id: string_of(&pid),
        raw_technique: String::new(),
        title: pattern.title.clone(),
        pattern_type: pattern.pattern_type.clone(),
        summary: pattern.summary.clone(),
        situation: pattern.situation.clone(),
        principle: pattern.principle.clone(),
        strategies,
        cautions,
        domains: crate::models::clone_strings(&pattern.facets.domains),
        goals: crate::models::clone_strings(&pattern.facets.goals),
        operations: crate::models::clone_strings(&pattern.facets.operations),
        structures: crate::models::clone_strings(&pattern.facets.structures),
        situations: crate::models::clone_strings(&pattern.facets.situations),
        tags: crate::models::clone_strings(&pattern.tags),
        source_type: string_of(&chars_of("manual")),
        matched_pattern_id: None,
        matched_pattern_title: None,
        similarity_reason: String::new(),
        action_recommendation: string_of(&chars_of("create_new")),
        generalization_reason: String::new(),
        specificity_level: 0,
        search_concepts: Vec::new(),
        is_overly_specific: false,
        is_overly_general: false,
        specificity_reason: String::new(),
        possible_parent_pattern: None,
        generalization_decision: String::new(),
        recommended_storage: String::new(),
        generalization_pass_count: 0,
    }
}

/// The update that an accepted rewrite makes: the proposal's texts trimmed, its
/// cautions cleaned, its tags, facets and strategies; examples and provenance kept.
pub open spec fn edit_update_of(pattern_id: i64, expected_version: Option<i64>, p: PatternProposal, current: PatternFull, u: PatternUpdate) -> bool {
    &&& u.id == pattern_id
    &&& u.expected_version == expected_version
    &&& u.title@ == trim(p.title@)
    &&& u.summary@ == trim(p.summary@)
    &&& u.pattern_type@ == type_of(p.pattern_type@)
    &&& u.situation@ == trim(p.situation@)
    &&& u.principle@ == trim(p.principle@)
    &&& u.cautions@ == join(cleaned(string_views(p.cautions@)), "\n"@)
    &&& u.examples == current.examples
    &&& u.source_note == current.source_note
    &&& u.tags@ == p.tags@
    &&& u.facets.domains@ == p.domains@
    &&& u.facets.goals@ == p.goals@
    &&& u.facets.operations@ == p.operations@
    &&& u.facets.structures@ == p.structures@
    &&& u.facets.situations@ == p.situations@
    &&& input_views(u.strategies@) == proposal_inputs(p)
}

/// Applies an accepted rewrite to the stored pattern `current` (loaded by the
/// caller): the checked proposal becomes the update to store, or its refusal.
pub fn apply_pattern_edit(pattern_id: i64, expected_version: Option<i64>, proposal: &PatternProposal, reusability_ok: bool, current: &PatternFull) -> (r: Result<PatternUpdate, String>)
    ensures
        match proposal_refusal(*proposal, reusability_ok) {
            Some(msg) => r matches Err(e) && e@ == msg,
            None => r matches Ok(u) && edit_update_of(pattern_id, expected_version, *proposal, *current, u),
        },
{
    match validate_proposal(proposal, reusability_ok) {
        Err(e) => {
            return Err(e);
        },
        Ok(()) => {},
    }
    let cautions = clean_values(&proposal.cautions);
    let cv = to_char_vecs(&cautions);
    let nl = chars_of("\n");
    let joined = join_chars(&cv, &nl);
    let update = PatternUpdate {
        id: pattern_id,
        expected_version,
        title: trimmed_string(&proposal.title),
        summary: trimmed_string(&proposal.summary),
        pattern_type: normalized_type(proposal.pattern_type.as_str()),
        situation: trimmed_string(&proposal.situation),
        principle: trimmed_string(&proposal.principle),
        cautions: string_of(&joined),
        examples: current.examples.clone(),
        source_note: current.source_note.clone(),
        tags: crate::models::clone_strings(&proposal.tags),
        facets: PatternFacets {
            domains: crate::models::clone_strings(&proposal.domains),
            goals: crate::models::clone_strings(&proposal.goals),
            operations: crate::models::clone_strings(&proposal.operations),
            structures: crate::models::clone_strings(&proposal.structures),
            situations: crate::models::clone_strings(&proposal.situations),
        },
        strategies: proposal_strategy_inputs(proposal),
    };
    Ok(update)
}

// ---------------------------------------------------------------------------
// Classifying extracted proposals
// ---------------------------------------------------------------------------

pub open spec fn first_n<A>(s: Seq<A>, n: nat) -> Seq<A> {
    if s.len() <= n {
        s
    } else {
        s.take(n as int)
    }
}

/// The texts searched for when looking for stored patterns like a proposal:
/// its concept words, the named parent, its texts, some strategy titles, tags
/// and facets; cleaned, at most 20.
pub open spec fn search_terms(p: PatternProposal) -> Seq<Seq<char>> {
    let hint = match p.possible_parent_pattern {
        Some(h) => seq![h.title@],
        None => seq![],
    };
    let terms = first_n(string_views(p.search_concepts@), 8) + hint + seq![p.title@, p.summary@, p.situation@, p.principle@]
        + first_n(proposal_titles(p), 3) + first_n(string_views(p.tags@), 3) + first_n(string_views(p.domains@), 2)
        + first_n(string_views(p.operations@), 2);
    first_n(cleaned(terms), 20)
}

fn push_first(out: &mut Vec<String>, v: &Vec<String>, n: usize)
    ensures
        string_views(final(out)@) == string_views(old(out)@) + first_n(string_views(v@), n as nat),
{
    let m = if v.len() <= n { v.len() } else { n };
    let ghost before = string_views(out@);
    let mut k: usize = 0;
    while k < m
        invariant
            k <= m,
            m <= v.len(),
            m == (if v@.len() <= n { v@.len() } else { n as nat }),
            string_views(out@) == before + string_views(v@).take(k as int),
        decreases m - k,
    {
        let ghost o = out@;
        let x = v[k].clone();
        out.push(x);
        assert(string_views(out@) =~= string_views(o).push(x@));
        assert(string_views(v@).take(k + 1) =~= string_views(v@).take(k as int).push(v@[k as int]@));
        assert(string_views(out@) =~= before + string_views(v@).take(k + 1));
        k += 1;
    }
    assert(string_views(v@).take(m as int) =~= first_n(string_views(v@), n as nat));
}

/// The search terms for finding stored patterns like a proposal.
pub fn proposal_search_terms(p: &PatternProposal) -> (r: Vec<String>)
    ensures
        string_views(r@) == search_terms(*p),
{
    let mut terms: Vec<String> = Vec::new();
    assert(string_views(terms@) =~= Seq::<Seq<char>>::empty());
    push_first(&mut terms, &p.search_concepts, 8);
    let ghost t1 = string_views(terms@);
    match &p.possible_parent_pattern {
        Some(h) => {
            terms.push(h.title.clone());
        },
        None => {},
    }
    let ghost t2 = string_views(terms@);
    terms.push(p.title.clone());
    terms.push(p.summary.clone());
    terms.push(p.situation.clone());
    terms.push(p.principle.clone());
    let ghost t3 = string_views(terms@);
    let mut titles: Vec<String> = Vec::new();
    let mut k: usize = 0;
    while k < p.strategies.len() && k < 3
        invariant
            k <= p.strategies.len(),
            k <= 3,
            string_views(titles@) == proposal_titles(*p).take(k as int),
        decreases 3 - k,
    {
        let ghost o = titles@;
        let x = p.strategies[k].title.clone();
        titles.push(x);
        assert(string_views(titles@) =~= string_views(o).push(x@));
        assert(proposal_titles(*p).take(k + 1) =~= proposal_titles(*p).take(k as int).push(p.strategies@[k as int].title@));
        assert(string_views(titles@) =~= proposal_titles(*p).take(k + 1));
        k += 1;
    }
    assert(string_views(titles@) =~= first_n(proposal_titles(*p), 3));
    push_first(&mut terms, &titles, 3);
    assert(first_n(string_views(titles@), 3) =~= string_views(titles@));
    push_first(&mut terms, &p.tags, 3);
    push_first(&mut terms, &p.domains, 2);
    push_first(&mut terms, &p.operations, 2);
    assert(string_views(terms@) =~= first_n(string_views(p.search_concepts@), 8) + (match p.possible_parent_pattern {
        Some(h) => seq![h.title@],
        None => seq![],
    }) + seq![p.title@, p.summary@, p.situation@, p.principle@] + first_n(proposal_titles(*p), 3) + first_n(
        string_views(p.tags@),
        3,
    ) + first_n(string_views(p.domains@), 2) + first_n(string_views(p.operations@), 2));
    let c = clean_values(&terms);
    let mut out: Vec<String> = Vec::new();
    assert(string_views(out@) =~= Seq::<Seq<char>>::empty());
    push_first(&mut out, &c, 20);
    out
}

/// Whether a stored title is worth comparing in full: it shares enough pairs
/// with the proposal's title, or with the parent that the proposal names.
pub open spec fn title_candidate(p: PatternProposal, title: Seq<char>) -> bool {
    pair_share_at_least(p.title@, title, 35, 100) || (match p.possible_parent_pattern {
        Some(h) => pair_share_at_least(h.title@, title, 1, 2),
        None => false,
    })
}

pub fn title_scan_matches(p: &PatternProposal, title: &str) -> (b: bool)
    ensures
        b == title_candidate(*p, title@),
{
    let t = chars_of(title);
    let pt = chars_of(p.title.as_str());
    let sh = pair_share(&pt, &t);
    if share_at_least(&sh, 35, 100) {
        return true;
    }
    match &p.possible_parent_pattern {
        Some(h) => {
            let ht = chars_of(h.title.as_str());
            let sh = pair_share(&ht, &t);
            share_at_least(&sh, 1, 2)
        },
        None => false,
    }
}

/// Classifies each proposal against the stored patterns found for it
/// (`candidates[i]` for proposal `i`).
pub fn classify_pattern_proposals(proposals: &mut Vec<PatternProposal>, candidates: &Vec<Vec<PatternFull>>)
    requires
        old(proposals)@.len() == candidates@.len(),
    ensures
        final(proposals)@.len() == old(proposals)@.len(),
        forall|i: int| 0 <= i < old(proposals)@.len() ==> classified(
            old(proposals)@[i],
            #[trigger] final(proposals)@[i],
            classification(old(proposals)@[i], candidates@[i]@),
        ),
{
    let mut taken: Vec<PatternProposal> = Vec::new();
    std::mem::swap(&mut taken, proposals);
    let ghost olds = taken@;
    assert(olds.len() == taken.len());
    let mut i: usize = 0;
    assert(olds.skip(0) =~= taken@);
    while taken.len() > 0
        invariant
            i <= olds.len(),
            olds.len() <= usize::MAX,
            olds.len() == candidates@.len(),
            proposals@.len() == i,
            taken@ == olds.skip(i as int),
            forall|j: int| 0 <= j < i ==> classified(olds[j], #[trigger] proposals@[j], classification(olds[j], candidates@[j]@)),
        decreases taken.len(),
    {
        assert(i < olds.len());
        let mut p = taken.remove(0);
        assert(p == olds[i as int]);
        classify_pattern_proposal(&mut p, &candidates[i]);
        proposals.push(p);
        assert(olds.skip(i as int).drop_first() =~= olds.skip(i + 1));
        i += 1;
    }
}

// ---------------------------------------------------------------------------
// Applying an accepted proposal
// ---------------------------------------------------------------------------

pub open spec fn known_action(a: Seq<char>) -> bool {
    a == "create_new"@ || a == "create_child_pattern"@ || a == "merge_into_existing"@ || a == "add_candidate_to_existing"@
        || a == "add_caution_to_existing"@ || a == "add_example_to_existing"@ || a == "link_existing"@
}

/// Why a request to apply a (checked) proposal is refused, if it is.
pub open spec fn application_refusal(problem_id: i64, link: Option<Seq<char>>, source_type: Seq<char>, reference: Seq<char>, action: Seq<char>) -> Option<Seq<char>> {
    let has_source = problem_id > 0;
    if problem_id < 0 {
        Some("抽出元Problemが不正です"@)
    } else if !has_source && link is Some {
        Some("抽出元Problemがない候補は、Problemと関連付けできません"@)
    } else if !has_source && (source_type == "solution_used"@ || source_type == "explanation_used"@ || source_type
        == "ai_inferred"@) {
        Some("Problem由来の抽出根拠には抽出元Problemが必要です"@)
    } else if reference.len() > 300 {
        Some("由来の参照が長すぎます"@)
    } else if !known_action(action) {
        Some("定石候補の反映方法が不正です"@)
    } else if (match link {
        Some(r) => !(r == "applicable"@ || r == "used"@),
        None => false,
    }) {
        Some("Problemとの関連種別が不正です"@)
    } else {
        None
    }
}

/// Checks a request to apply a proposal before anything is stored.
pub fn check_proposal_application(problem_id: i64, link_relation_type: Option<&str>, source_type: &str, source_reference: &str, action: &str) -> (r: Result<(), String>)
    ensures
        match application_refusal(
            problem_id,
            match link_relation_type {
                Some(x) => Some(x@),
                None => None,
            },
            source_type@,
            source_reference@,
            action@,
        ) {
            Some(msg) => r matches Err(e) && e@ == msg,
            None => r is Ok,
        },
{
    let has_source = problem_id > 0;
    if problem_id < 0 {
        return err("抽出元Problemが不正です");
    }
    if !has_source && link_relation_type.is_some() {
        return err("抽出元Problemがない候補は、Problemと関連付けできません");
    }
    let st = chars_of(source_type);
    if !has_source && (is_str(&st, "solution_used") || is_str(&st, "explanation_used") || is_str(&st, "ai_inferred")) {
        return err("Problem由来の抽出根拠には抽出元Problemが必要です");
    }
    if chars_of(source_reference).len() > 300 {
        return err("由来の参照が長すぎます");
    }
    let a = chars_of(action);
    if !(is_str(&a, "create_new") || is_str(&a, "create_child_pattern") || is_str(&a, "merge_into_existing") || is_str(
        &a,
        "add_candidate_to_existing",
    ) || is_str(&a, "add_caution_to_existing") || is_str(&a, "add_example_to_existing") || is_str(&a, "link_existing")) {
        return err("定石候補の反映方法が不正です");
    }
    match link_relation_type {
        Some(rel) => {
            let r = chars_of(rel);
            if !(is_str(&r, "applicable") || is_str(&r, "used")) {
                return err("Problemとの関連種別が不正です");
            }
        },
        None => {},
    }
    Ok(())
}

/// Why the source problem cannot back the proposal's claimed source, if it cannot.
pub open spec fn source_problem_refusal(source_type: Seq<char>, answer: Seq<char>, explanation: Seq<char>) -> Option<Seq<char>> {
    if source_type == "solution_used"@ && trim(answer).len() == 0 {
        Some("解答がないProblemを『既存解答で使用』として保存できません"@)
    } else if source_type == "explanation_used"@ && trim(explanation).len() == 0 {
        Some("解説がないProblemを『既存解説で使用』として保存できません"@)
    } else {
        None
    }
}

pub fn check_source_problem(source_type: &str, answer_latex: &str, explanation_latex: &str) -> (r: Result<(), String>)
    ensures
        match source_problem_refusal(source_type@, answer_latex@, explanation_latex@) {
            Some(msg) => r matches Err(e) && e@ == msg,
            None => r is Ok,
        },
{
    let st = chars_of(source_type);
    if is_str(&st, "solution_used") && is_blank_chars(&chars_of(answer_latex)) {
        return err("解答がないProblemを『既存解答で使用』として保存できません");
    }
    if is_str(&st, "explanation_used") && is_blank_chars(&chars_of(explanation_latex)) {
        return err("解説がないProblemを『既存解説で使用』として保存できません");
    }
    Ok(())
}

/// A stored candidate strategy as it is written back.
pub open spec fn stored_input(st: PatternStrategy) -> PatternStrategyInputView {
    PatternStrategyInputView {
        id: Some(st.id),
        parent_strategy_id: st.parent_strategy_id,
        title: st.title@,
        description: st.description@,
        condition: st.condition@,
        reasoning: st.reasoning@,
        branch_label: st.branch_label@,
        sort_order: st.sort_order as int,
    }
}

pub open spec fn titles_of(v: Seq<PatternStrategyInputView>) -> Seq<Seq<char>> {
    v.map_values(|s: PatternStrategyInputView| s.title)
}

/// The strategies with each addition appended, renumbered last, whose title key is new.
pub open spec fn merged_strategies(existing: Seq<PatternStrategyInputView>, adds: Seq<PatternStrategyInputView>) -> Seq<PatternStrategyInputView>
    decreases adds.len(),
{
    if adds.len() == 0 {
        existing
    } else {
        let prev = merged_strategies(existing, adds.drop_last());
        let a = adds.last();
        if keys_of(titles_of(prev)).contains(key(a.title)) {
            prev
        } else {
            prev.push(PatternStrategyInputView { sort_order: (prev.len() + 1) as int, ..a })
        }
    }
}

/// What an accepted proposal changes in an existing pattern.
pub struct MergedPattern {
    pub strategies: Vec<PatternStrategyInput>,
    pub cautions: String,
    pub examples: String,
    pub source_note: String,
    /// The tags and facets to store, where the proposal is merged in full.
    pub tags: Option<Vec<String>>,
    pub facets: Option<PatternFacets>,
}

pub open spec fn adds_strategies(action: Seq<char>) -> bool {
    action == "merge_into_existing"@ || action == "add_candidate_to_existing"@
}

pub open spec fn adds_cautions(action: Seq<char>) -> bool {
    action == "merge_into_existing"@ || action == "add_caution_to_existing"@
}

pub open spec fn adds_examples(action: Seq<char>) -> bool {
    action == "merge_into_existing"@ || action == "add_example_to_existing"@
}

/// A full merge: the proposal's tags and facets added after the pattern's own.
pub open spec fn merged_lists(current: PatternFull, p: PatternProposal, m: MergedPattern) -> bool {
    match (m.tags, m.facets) {
        (Some(t), Some(f)) => {
            &&& t@ == current.tags@ + p.tags@
            &&& f.domains@ == current.facets.domains@ + p.domains@
            &&& f.goals@ == current.facets.goals@ + p.goals@
            &&& f.operations@ == current.facets.operations@ + p.operations@
            &&& f.structures@ == current.facets.structures@ + p.structures@
            &&& f.situations@ == current.facets.situations@ + p.situations@
        },
        _ => false,
    }
}

/// What merging a proposal into `current` with the given action stores.
pub open spec fn merge_of(current: PatternFull, p: PatternProposal, action: Seq<char>, provenance: Seq<char>, m: MergedPattern) -> bool {
    let existing = current.strategies@.map_values(|st: PatternStrategy| stored_input(st));
    &&& input_views(m.strategies@) == (if adds_strategies(action) { merged_strategies(existing, proposal_inputs(p)) } else { existing })
    &&& m.cautions@ == (if adds_cautions(action) { unique_text(current.cautions@, string_views(p.cautions@)) } else { current.cautions@ })
    &&& m.examples@ == (if adds_examples(action) { unique_text(current.examples@, example_lines(p)) } else { current.examples@ })
    &&& m.source_note@ == unique_text(current.source_note@, seq![provenance])
    &&& (if action == "merge_into_existing"@ {
        merged_lists(current, p, m)
    } else {
        m.tags is None && m.facets is None
    })
}

fn stored_inputs(current: &PatternFull) -> (r: Vec<PatternStrategyInput>)
    ensures
        input_views(r@) == current.strategies@.map_values(|st: PatternStrategy| stored_input(st)),
{
    let mut out: Vec<PatternStrategyInput> = Vec::new();
    let mut i: usize = 0;
    while i < current.strategies.len()
        invariant
            i <= current.strategies.len(),
            input_views(out@) == current.strategies@.take(i as int).map_values(|st: PatternStrategy| stored_input(st)),
        decreases current.strategies.len() - i,
    {
        let st = &current.strategies[i];
        let item = PatternStrategyInput {
            id: Some(st.id),
            parent_strategy_id: st.parent_strategy_id,
            title: st.title.clone(),
            description: st.description.clone(),
            condition: st.condition.clone(),
            reasoning: st.reasoning.clone(),
            branch_label: st.branch_label.clone(),
            sort_order: st.sort_order,
        };
        let ghost before = input_views(out@);
        out.push(item);
        assert(input_views(out@) =~= before.push(input_view(item)));
        assert(current.strategies@.take(i + 1).map_values(|st: PatternStrategy| stored_input(st))
            =~= current.strategies@.take(i as int).map_values(|st: PatternStrategy| stored_input(st)).push(stored_input(current.strategies@[i as int])));
        i += 1;
    }
    assert(current.strategies@.take(current.strategies@.len() as int) =~= current.strategies@);
    out
}

fn input_titles(v: &Vec<PatternStrategyInput>) -> (r: Vec<Vec<char>>)
    ensures
        views(r@) == titles_of(input_views(v@)),
{
    let mut out: Vec<Vec<char>> = Vec::new();
    let mut i: usize = 0;
    while i < v.len()
        invariant
            i <= v.len(),
            views(out@) == titles_of(input_views(v@)).take(i as int),
        decreases v.len() - i,
    {
        let ghost before = views(out@);
        let t = chars_of(v[i].title.as_str());
        out.push(t);
        assert(views(out@) =~= before.push(v@[i as int].title@));
        assert(titles_of(input_views(v@)).take(i + 1) =~= titles_of(input_views(v@)).take(i as int).push(v@[i as int].title@));
        i += 1;
    }
    assert(titles_of(input_views(v@)).take(v@.len() as int) =~= titles_of(input_views(v@)));
    out
}

fn merge_strategies_exec(existing: Vec<PatternStrategyInput>, adds: Vec<PatternStrategyInput>) -> (r: Vec<PatternStrategyInput>)
    requires
        existing@.len() + adds@.len() < i64::MAX,
    ensures
        input_views(r@) == merged_strategies(input_views(existing@), input_views(adds@)),
{
    let mut out = existing;
    let ghost e0 = input_views(out@);
    let keys0 = input_titles(&out);
    let mut seen = keys_exec(&keys0);
    let mut i: usize = 0;
    let mut rest = adds;
    let ghost all = rest@;
    assert(all.len() == rest.len());
    assert(all.skip(0) =~= rest@);
    while rest.len() > 0
        invariant
            i <= all.len(),
            all.len() <= usize::MAX,
            all.len() + e0.len() < i64::MAX,
            rest@ == all.skip(i as int),
            input_views(out@) == merged_strategies(e0, input_views(all).take(i as int)),
            out@.len() <= e0.len() + i,
            views(seen@) == keys_of(titles_of(input_views(out@))),
        decreases rest.len(),
    {
        assert(i < all.len());
        proof {
            assert(input_views(all).take(i + 1).drop_last() =~= input_views(all).take(i as int));
        }
        let mut a = rest.remove(0);
        assert(a == all[i as int]);
        assert(all.skip(i as int).drop_first() =~= all.skip(i + 1));
        let k = key_chars(&chars_of(a.title.as_str()));
        if !contains_seq(&seen, &k) {
            let ghost so = input_views(out@);
            a.sort_order = out.len() as i64 + 1;
            out.push(a);
            seen.push(k);
            assert(input_views(out@) =~= so.push(input_view(a)));
            assert(titles_of(input_views(out@)) =~= titles_of(so).push(a.title@));
            assert(keys_of(titles_of(so).push(a.title@)) =~= keys_of(titles_of(so)).push(key(a.title@)));
        }
        i += 1;
    }
    assert(input_views(all).take(all.len() as int) =~= input_views(all));
    out
}

fn concat_strings(a: &Vec<String>, b: &Vec<String>) -> (r: Vec<String>)
    ensures
        r@ == a@ + b@,
{
    let mut out = crate::models::clone_strings(a);
    let mut extra = crate::models::clone_strings(b);
    out.append(&mut extra);
    out
}

/// What merging an accepted proposal into the existing pattern `current` stores:
/// the strategies, cautions, examples, provenance and (for a full merge) tags and facets.
pub fn merge_proposal_into_pattern(current: &PatternFull, p: &PatternProposal, action: &str, provenance: &str) -> (r: MergedPattern)
    requires
        current.strategies@.len() + p.strategies@.len() < i64::MAX,
    ensures
        merge_of(*current, *p, action@, provenance@, r),
{
    let a = chars_of(action);
    let merge = is_str(&a, "merge_into_existing");
    let existing = stored_inputs(current);
    let strategies = if merge || is_str(&a, "add_candidate_to_existing") {
        let adds = proposal_strategy_inputs(p);
        assert(input_views(existing@).len() == existing@.len());
        assert(input_views(adds@).len() == adds@.len());
        merge_strategies_exec(existing, adds)
    } else {
        existing
    };
    let cautions = if merge || is_str(&a, "add_caution_to_existing") {
        append_unique_text(current.cautions.as_str(), &p.cautions)
    } else {
        current.cautions.clone()
    };
    let examples = if merge || is_str(&a, "add_example_to_existing") {
        let lines = proposal_example_lines(p);
        append_unique_text(current.examples.as_str(), &lines)
    } else {
        current.examples.clone()
    };
    let mut pv: Vec<String> = Vec::new();
    pv.push(string_of(&chars_of(provenance)));
    assert(string_views(pv@) =~= seq![provenance@]);
    let source_note = append_unique_text(current.source_note.as_str(), &pv);
    let (tags, facets) = if merge {
        (
            Some(concat_strings(&current.tags, &p.tags)),
            Some(
                PatternFacets {
                    domains: concat_strings(&current.facets.domains, &p.domains),
                    goals: concat_strings(&current.facets.goals, &p.goals),
                    operations: concat_strings(&current.facets.operations, &p.operations),
                    structures: concat_strings(&current.facets.structures, &p.structures),
                    situations: concat_strings(&current.facets.situations, &p.situations),
                },
            ),
        )
    } else {
        (None, None)
    };
    MergedPattern { strategies, cautions, examples, source_note, tags, facets }
}

// ---------------------------------------------------------------------------
// Laws
// ---------------------------------------------------------------------------

/// Law: cleaned values are non-blank and no two have the same lower-case form.
pub proof fn lemma_cleaned_distinct(values: Seq<Seq<char>>)
    ensures
        forall|i: int| 0 <= i < cleaned(values).len() ==> (#[trigger] cleaned(values)[i]).len() > 0,
        forall|i: int, j: int|
            0 <= i < j < cleaned(values).len() ==> lower_case(cleaned(values)[i]) != lower_case(cleaned(values)[j]),
    decreases values.len(),
{
    if values.len() > 0 {
        let prev = cleaned(values.drop_last());
        lemma_cleaned_distinct(values.drop_last());
        let t = trim(values.last());
        if t.len() > 0 && !prev.map_values(|x: Seq<char>| lower_case(x)).contains(lower_case(t)) {
            assert forall|i: int| 0 <= i < prev.len() implies lower_case(prev[i]) != lower_case(t) by {
                assert(prev.map_values(|x: Seq<char>| lower_case(x))[i] == lower_case(prev[i]));
            }
        }
    }
}

/// Law: the candidate chosen for a proposal scores at least as high as every
/// candidate, and higher than every candidate before it.
pub proof fn lemma_best_is_first_maximum(p: PatternProposal, cands: Seq<PatternFull>)
    ensures
        cands.len() == 0 <==> best_index(p, cands) is None,
        best_index(p, cands) matches Some(b) ==> 0 <= b < cands.len()
            && (forall|k: int| 0 <= k < cands.len() ==> similarity(p, cands[k]).score <= similarity(p, cands[b]).score)
            && (forall|k: int| 0 <= k < b ==> similarity(p, cands[k]).score < similarity(p, cands[b]).score),
    decreases cands.len(),
{
    if cands.len() > 0 {
        let prev = cands.drop_last();
        let i = cands.len() - 1;
        lemma_best_is_first_maximum(p, prev);
        assert forall|k: int| 0 <= k < prev.len() implies #[trigger] prev[k] == cands[k] by {}
        match best_index(p, prev) {
            None => {
                assert(prev.len() == 0);
                assert(best_index(p, cands) == Some(i));
            },
            Some(j) => {
                assert(prev[j] == cands[j]);
                if similarity(p, cands[i]).score > similarity(p, prev[j]).score {
                    assert(best_index(p, cands) == Some(i));
                    assert forall|k: int| 0 <= k < cands.len() implies similarity(p, cands[k]).score <= similarity(p, cands[i]).score by {
                        if k < i {
                            assert(prev[k] == cands[k]);
                        }
                    }
                    assert forall|k: int| 0 <= k < i implies similarity(p, cands[k]).score < similarity(p, cands[i]).score by {
                        assert(prev[k] == cands[k]);
                    }
                } else {
                    assert(best_index(p, cands) == Some(j));
                    assert forall|k: int| 0 <= k < cands.len() implies similarity(p, cands[k]).score <= similarity(p, cands[j]).score by {
                        if k < i {
                            assert(prev[k] == cands[k]);
                        }
                    }
                    assert forall|k: int| 0 <= k < j implies similarity(p, cands[k]).score < similarity(p, cands[j]).score by {
                        assert(prev[k] == cands[k]);
                    }
                }
            },
        }
    }
}

/// Law: a classified proposal names a stored pattern only when one of its
/// candidates scores at least 5, and then names the best of them.
pub proof fn lemma_classification_names_best(p: PatternProposal, cands: Seq<PatternFull>)
    ensures
        classification(p, cands).matched_id matches Some(id) ==> exists|b: int|
            0 <= b < cands.len() && cands[b].id == id && similarity(p, cands[b]).score >= 5 && (forall|k: int|
                0 <= k < cands.len() ==> similarity(p, cands[k]).score <= similarity(p, cands[b]).score),
        classification(p, cands).matched_id is None ==> forall|k: int|
            0 <= k < cands.len() ==> similarity(p, cands[k]).score < 5,
{
    lemma_best_is_first_maximum(p, cands);
}


// ---------------------------------------------------------------------------
// Pattern library files
// ---------------------------------------------------------------------------

/// The format a pattern library file names, and its version.
pub const PATTERN_LIBRARY_FORMAT: &'static str = "kyozai-kobo-pattern-library";
pub const PATTERN_LIBRARY_VERSION: i64 = 1;
pub const PATTERN_LIBRARY_UNSUPPORTED: &'static str = "対応していない定石ライブラリ形式です";

/// Accepts a pattern library file only in this format and version.
pub fn check_pattern_library(format: &str, format_version: i64) -> (r: Result<(), String>)
    ensures
        r is Ok <==> (format@ == PATTERN_LIBRARY_FORMAT@ && format_version == PATTERN_LIBRARY_VERSION),
        r matches Err(e) ==> e@ == PATTERN_LIBRARY_UNSUPPORTED@,
{
    if is_str(&chars_of(format), PATTERN_LIBRARY_FORMAT) && format_version == PATTERN_LIBRARY_VERSION {
        Ok(())
    } else {
        Err(string_of(&chars_of(PATTERN_LIBRARY_UNSUPPORTED)))
    }
}


// ---------------------------------------------------------------------------
// Where a proposal goes, and the pattern it creates
// ---------------------------------------------------------------------------

pub const CHOOSE_PARENT: &'static str = "上位となる既存定石を選択してください";
pub const CHOOSE_TARGET: &'static str = "追記先の既存定石を選択してください";

/// Where an accepted proposal is written.
#[derive(Clone, Copy, Debug, PartialEq, Eq)]
pub enum ProposalTarget {
    /// A new pattern, under this parent pattern when it is a specialisation.
    Create(Option<i64>),
    /// An existing pattern.
    Existing(i64),
}

pub open spec fn or_else(a: Option<i64>, b: Option<i64>) -> Option<i64> {
    match a {
        Some(x) => Some(x),
        None => b,
    }
}

/// The target of an action: `create_new` makes a pattern; `create_child_pattern`
/// makes one under the parent chosen, else the target, else the matched
/// pattern; every other action writes into the target, else the matched
/// pattern. Where no pattern is chosen, the action is refused.
pub open spec fn proposal_target_of(
    action: Seq<char>,
    parent_pattern_id: Option<i64>,
    target_pattern_id: Option<i64>,
    matched_pattern_id: Option<i64>,
) -> Result<ProposalTarget, Seq<char>> {
    if action == "create_new"@ {
        Ok(ProposalTarget::Create(None))
    } else if action == "create_child_pattern"@ {
        match or_else(parent_pattern_id, or_else(target_pattern_id, matched_pattern_id)) {
            Some(p) => Ok(ProposalTarget::Create(Some(p))),
            None => Err(CHOOSE_PARENT@),
        }
    } else {
        match or_else(target_pattern_id, matched_pattern_id) {
            Some(t) => Ok(ProposalTarget::Existing(t)),
            None => Err(CHOOSE_TARGET@),
        }
    }
}

pub fn proposal_target(
    action: &str,
    parent_pattern_id: Option<i64>,
    target_pattern_id: Option<i64>,
    matched_pattern_id: Option<i64>,
) -> (r: Result<ProposalTarget, String>)
    ensures
        match proposal_target_of(action@, parent_pattern_id, target_pattern_id, matched_pattern_id) {
            Ok(t) => r == Ok::<ProposalTarget, String>(t),
            Err(m) => r matches Err(e) && e@ == m,
        },
{
    let a = chars_of(action);
    if is_str(&a, "create_new") {
        return Ok(ProposalTarget::Create(None));
    }
    if is_str(&a, "create_child_pattern") {
        let p = match parent_pattern_id {
            Some(x) => Some(x),
            None => match target_pattern_id {
                Some(x) => Some(x),
                None => matched_pattern_id,
            },
        };
        return match p {
            Some(x) => Ok(ProposalTarget::Create(Some(x))),
            None => Err(string_of(&chars_of(CHOOSE_PARENT))),
        };
    }
    match target_pattern_id {
        Some(t) => Ok(ProposalTarget::Existing(t)),
        None => match matched_pattern_id {
            Some(t) => Ok(ProposalTarget::Existing(t)),
            None => Err(string_of(&chars_of(CHOOSE_TARGET))),
        },
    }
}

/// The stored fields of a pattern created from a proposal.
pub struct NewPatternFields {
    pub title: String,
    pub summary: String,
    pub pattern_type: String,
    pub situation: String,
    pub principle: String,
    pub cautions: String,
    pub source_note: String,
    pub source_kind: String,
}

/// A new pattern's fields: the proposal's texts trimmed, its type normalised,
/// its cleaned cautions one per line, the provenance as its source note, and
/// the kind of source it came from.
pub fn new_pattern_fields(p: &PatternProposal, provenance: &str) -> (r: NewPatternFields)
    ensures
        r.title@ == trim(p.title@),
        r.summary@ == trim(p.summary@),
        r.pattern_type@ == type_of(p.pattern_type@),
        r.situation@ == trim(p.situation@),
        r.principle@ == trim(p.principle@),
        r.cautions@ == join(cleaned(string_views(p.cautions@)), "\n"@),
        r.source_note@ == provenance@,
        r.source_kind@ == source_kind(p.source_type@),
{
    let cs = clean_values(&p.cautions);
    let mut parts: Vec<Vec<char>> = Vec::new();
    let mut i: usize = 0;
    while i < cs.len()
        invariant
            i <= cs.len(),
            views(parts@) == string_views(cs@).take(i as int),
        decreases cs.len() - i,
    {
        let ghost before = views(parts@);
        let c = chars_of(cs[i].as_str());
        parts.push(c);
        assert(views(parts@) =~= before.push(cs@[i as int]@));
        assert(views(parts@) =~= string_views(cs@).take(i + 1));
        i += 1;
    }
    assert(string_views(cs@).take(cs@.len() as int) =~= string_views(cs@));
    let nl = chars_of("\n");
    let kind = source_kind_for_proposal(p.source_type.as_str());
    NewPatternFields {
        title: string_of(&trim_of(&chars_of(p.title.as_str()))),
        summary: string_of(&trim_of(&chars_of(p.summary.as_str()))),
        pattern_type: normalized_type(p.pattern_type.as_str()),
        situation: string_of(&trim_of(&chars_of(p.situation.as_str()))),
        principle: string_of(&trim_of(&chars_of(p.principle.as_str()))),
        cautions: string_of(&join_chars(&parts, &nl)),
        source_note: string_of(&chars_of(provenance)),
        source_kind: string_of(&chars_of(kind)),
    }
}

/// The pair of relations between a parent pattern and a child made under it:
/// the parent specialises into the child, and the child generalises to it.
pub fn child_relations(parent: i64, child: i64) -> (r: Vec<(i64, i64, &'static str)>)
    ensures
        r.len() == 2,
        r@[0].0 == parent && r@[0].1 == child && r@[0].2@ == "specialization"@,
        r@[1].0 == child && r@[1].1 == parent && r@[1].2@ == "generalization"@,
{
    vec![(parent, child, "specialization"), (child, parent, "generalization")]
}


// ---------------------------------------------------------------------------
// Gathering the stored patterns a proposal is compared with
// ---------------------------------------------------------------------------

/// How many hits of one search term are taken.
pub const CANDIDATES_PER_TERM: usize = 10;
/// How many candidates are compared at most.
pub const MAX_CANDIDATES: usize = 30;
/// How many recent titles are scanned when the searches found too few.
pub const RECENT_SCANNED: usize = 200;

/// The hits of each term, at most `CANDIDATES_PER_TERM` of each, in order.
pub open spec fn term_ids(hits: Seq<Seq<i64>>) -> Seq<i64>
    decreases hits.len(),
{
    if hits.len() == 0 {
        seq![]
    } else {
        term_ids(hits.drop_last()) + first_n(hits.last(), CANDIDATES_PER_TERM as nat)
    }
}

/// Of the recent patterns (id, whether its title matched), those that matched.
pub open spec fn matched_ids(recent: Seq<(i64, bool)>) -> Seq<i64>
    decreases recent.len(),
{
    if recent.len() == 0 {
        seq![]
    } else {
        matched_ids(recent.drop_last()) + if recent.last().1 { seq![recent.last().0] } else { seq![] }
    }
}

pub open spec fn recent_ids(recent: Seq<(i64, bool)>) -> Seq<i64> {
    matched_ids(if recent.len() <= RECENT_SCANNED { recent } else { recent.take(RECENT_SCANNED as int) })
}

/// `ids` added in turn to the increasing `r`, each only while fewer than
/// `MAX_CANDIDATES` are held.
pub open spec fn add_capped(r: Seq<i64>, ids: Seq<i64>) -> Seq<i64>
    decreases ids.len(),
{
    if ids.len() == 0 {
        r
    } else {
        let prev = add_capped(r, ids.drop_last());
        if prev.len() < MAX_CANDIDATES { insert_sorted(prev, ids.last()) } else { prev }
    }
}

/// The candidates: the term hits, then the recent titles that matched, as a
/// set of at most `MAX_CANDIDATES` ids in increasing order.
pub open spec fn candidate_ids(hits: Seq<Seq<i64>>, recent: Seq<(i64, bool)>) -> Seq<i64> {
    add_capped(add_capped(seq![], term_ids(hits)), recent_ids(recent))
}

proof fn lemma_insert_sorted_len(r: Seq<i64>, x: i64)
    ensures
        insert_sorted(r, x).len() <= r.len() + 1,
    decreases r.len(),
{
    if r.len() > 0 && x > r[0] {
        lemma_insert_sorted_len(r.drop_first(), x);
    }
}

proof fn lemma_add_capped(r: Seq<i64>, ids: Seq<i64>)
    requires
        strictly_increasing(r),
        r.len() <= MAX_CANDIDATES,
    ensures
        strictly_increasing(add_capped(r, ids)),
        add_capped(r, ids).len() <= MAX_CANDIDATES,
        forall|y: i64| #[trigger] add_capped(r, ids).contains(y) ==> r.contains(y) || ids.contains(y),
    decreases ids.len(),
{
    if ids.len() > 0 {
        lemma_add_capped(r, ids.drop_last());
        let prev = add_capped(r, ids.drop_last());
        if prev.len() < MAX_CANDIDATES {
            lemma_insert_sorted(prev, ids.last());
            lemma_insert_sorted_len(prev, ids.last());
        }
        assert forall|y: i64| #[trigger] add_capped(r, ids).contains(y) implies r.contains(y) || ids.contains(y) by {
            if prev.contains(y) && !r.contains(y) {
                let k = choose|k: int| 0 <= k < ids.drop_last().len() && ids.drop_last()[k] == y;
                assert(ids[k] == y);
            }
            if y == ids.last() {
                assert(ids[ids.len() - 1] == y);
            }
        }
    }
}

/// Law: the candidates are at most `MAX_CANDIDATES` distinct ids in increasing
/// order, each found by a term search or a matching recent title.
pub proof fn lemma_candidates_bounded(hits: Seq<Seq<i64>>, recent: Seq<(i64, bool)>)
    ensures
        strictly_increasing(candidate_ids(hits, recent)),
        candidate_ids(hits, recent).len() <= MAX_CANDIDATES,
        forall|y: i64| #[trigger] candidate_ids(hits, recent).contains(y) ==> term_ids(hits).contains(y) || recent_ids(recent).contains(y),
{
    lemma_add_capped(seq![], term_ids(hits));
    lemma_add_capped(add_capped(seq![], term_ids(hits)), recent_ids(recent));
}

fn add_capped_exec(r: &mut Vec<i64>, ids: &Vec<i64>)
    ensures
        final(r)@ == add_capped(old(r)@, ids@),
{
    let ghost r0 = r@;
    let mut i: usize = 0;
    while i < ids.len()
        invariant
            i <= ids.len(),
            r@ == add_capped(r0, ids@.take(i as int)),
        decreases ids.len() - i,
    {
        assert(ids@.take(i + 1).drop_last() =~= ids@.take(i as int));
        if r.len() < MAX_CANDIDATES {
            crate::flow_normalize::insert_sorted_exec(r, ids[i]);
        }
        i += 1;
    }
    assert(ids@.take(ids@.len() as int) =~= ids@);
}

pub open spec fn hit_views(h: Seq<Vec<i64>>) -> Seq<Seq<i64>> {
    h.map_values(|v: Vec<i64>| v@)
}

/// The stored patterns to compare a proposal with, from what the searches
/// returned: `term_hits` holds each term's hits in the order searched, and
/// `recent` the most recent patterns with whether each title matched.
pub fn gather_candidates(term_hits: &Vec<Vec<i64>>, recent: &Vec<(i64, bool)>) -> (r: Vec<i64>)
    ensures
        r@ == candidate_ids(hit_views(term_hits@), recent@),
        strictly_increasing(r@),
        r.len() <= MAX_CANDIDATES,
{
    let ghost hv = hit_views(term_hits@);
    let mut ts: Vec<i64> = Vec::new();
    let mut t: usize = 0;
    while t < term_hits.len()
        invariant
            t <= term_hits.len(),
            hv == hit_views(term_hits@),
            ts@ == term_ids(hv.take(t as int)),
        decreases term_hits.len() - t,
    {
        assert(hv.take(t + 1).drop_last() =~= hv.take(t as int));
        let h = &term_hits[t];
        assert(hv.take(t + 1).last() == h@);
        let n = if h.len() <= CANDIDATES_PER_TERM { h.len() } else { CANDIDATES_PER_TERM };
        let ghost before = ts@;
        let mut j: usize = 0;
        while j < n
            invariant
                j <= n <= h.len(),
                n == (if h.len() <= CANDIDATES_PER_TERM { h.len() } else { CANDIDATES_PER_TERM }),
                ts@ == before + h@.take(j as int),
            decreases n - j,
        {
            ts.push(h[j]);
            assert(ts@ =~= before + h@.take(j + 1));
            j += 1;
        }
        assert(h@.take(n as int) =~= first_n(h@, CANDIDATES_PER_TERM as nat));
        t += 1;
    }
    assert(hv.take(term_hits.len() as int) =~= hv);
    let m = if recent.len() <= RECENT_SCANNED { recent.len() } else { RECENT_SCANNED };
    let ghost rs = if recent@.len() <= RECENT_SCANNED { recent@ } else { recent@.take(RECENT_SCANNED as int) };
    assert(rs =~= recent@.take(m as int));
    let mut ms: Vec<i64> = Vec::new();
    let mut k: usize = 0;
    while k < m
        invariant
            k <= m <= recent.len(),
            rs == recent@.take(m as int),
            ms@ == matched_ids(rs.take(k as int)),
        decreases m - k,
    {
        assert(rs.take(k + 1).drop_last() =~= rs.take(k as int));
        let (id, ok) = recent[k];
        assert(rs.take(k + 1).last() == (id, ok));
        if ok {
            ms.push(id);
        }
        assert(ms@ =~= matched_ids(rs.take(k + 1)));
        k += 1;
    }
    assert(rs.take(m as int) =~= rs);
    let mut r: Vec<i64> = Vec::new();
    add_capped_exec(&mut r, &ts);
    add_capped_exec(&mut r, &ms);
    proof {
        lemma_candidates_bounded(hv, recent@);
    }
    r
}


/// Law: a proposal that the extraction wants kept as an example of a stored
/// pattern it matches (below a perfect score) is recommended to be added to
/// that pattern as an example: it is neither dropped as a duplicate nor turned
/// into a new pattern, whatever the other pattern looks like.
pub proof fn lemma_example_proposals_extend_their_match(p: PatternProposal, cands: Seq<PatternFull>)
    requires
        p.recommended_storage@ == "example"@,
    ensures
        forall|score: int, m: PatternFull| score < 100 ==> #[trigger] matched_action(score, p, m) == "add_example_to_existing"@,
        ({
            let c = classification(p, cands);
            c.matched_id is Some && similarity(p, cands[best_index(p, cands)->Some_0]).score < 100
                ==> c.action == "add_example_to_existing"@
        }),
{
    reveal_strlit("example");
    reveal_strlit("new_pattern");
    reveal_strlit("child_pattern");
    assert("example"@ != "new_pattern"@) by {
        assert("example"@[0] != "new_pattern"@[0]);
    }
    assert("example"@ != "child_pattern"@) by {
        assert("example"@[0] != "child_pattern"@[0]);
    }
}

} // verus!
