//! Checking and normalising saved solution flows, and wording of generated flows.
use vstd::prelude::*;
use std::collections::HashSet;
use crate::models::{flow_view, FlowBlock, PatternStrategyInput, SnapshotView, SolutionFlowBlock};
use crate::flow_render::block_is;
use crate::pattern_card::repeat_char;
use crate::text::{
    chars_of, contains, contains_str, decimal, decimal_of, eq_chars, is_blank, is_cc, is_control,
    push_all, push_str, replace_all, replace_str, slice_of, string_of, trim, trim_of,
};

verus! {

broadcast use vstd::std_specs::hash::group_hash_axioms;

// ---------------------------------------------------------------------------
// Field checks
// ---------------------------------------------------------------------------

/// A control character that LaTeX cannot take (line breaks and tabs are fine).
pub open spec fn is_bad_control(c: char) -> bool {
    is_cc(c) && c != '\n' && c != '\r' && c != '\t'
}

pub open spec fn has_bad_control(v: Seq<char>) -> bool {
    exists|i: int| 0 <= i < v.len() && is_bad_control(#[trigger] v[i])
}

/// The complaint about a required text field, if any.
pub open spec fn field_error(value: Seq<char>, label: Seq<char>) -> Option<Seq<char>> {
    if trim(value).len() == 0 {
        Some(label + "が空です"@)
    } else if has_bad_control(value) {
        Some(label + "にLaTeXで扱えない制御文字が含まれています。考え方を再生成してください"@)
    } else if value.len() > 50000 {
        Some(label + "が長すぎます"@)
    } else {
        None
    }
}

pub fn non_empty_chars(value: &Vec<char>, label: &str) -> (r: Result<(), Vec<char>>)
    ensures
        match field_error(value@, label@) {
            Some(e) => r is Err && r->Err_0@ == e,
            None => r is Ok,
        },
{
    let l = chars_of(label);
    if is_blank(value) {
        let mut e = l;
        push_str(&mut e, "が空です");
        return Err(e);
    }
    let mut i: usize = 0;
    while i < value.len()
        invariant
            i <= value.len(),
            l@ == label@,
            trim(value@).len() != 0,
            forall|j: int| 0 <= j < i ==> !is_bad_control(#[trigger] value@[j]),
        decreases value.len() - i,
    {
        let c = value[i];
        if is_control(c) && c != '\n' && c != '\r' && c != '\t' {
            assert(is_bad_control(value@[i as int]));
            assert(has_bad_control(value@));
            let mut e = l;
            push_str(&mut e, "にLaTeXで扱えない制御文字が含まれています。考え方を再生成してください");
            return Err(e);
        }
        i += 1;
    }
    if value.len() > 50000 {
        let mut e = l;
        push_str(&mut e, "が長すぎます");
        return Err(e);
    }
    Ok(())
}

/// Checks a required text field of a flow block.
pub fn non_empty(value: &str, label: &str) -> (r: Result<(), String>)
    ensures
        match field_error(value@, label@) {
            Some(e) => r is Err && r->Err_0@ == e,
            None => r is Ok,
        },
{
    let v = chars_of(value);
    match non_empty_chars(&v, label) {
        Ok(()) => Ok(()),
        Err(e) => Err(string_of(&e)),
    }
}

// ---------------------------------------------------------------------------
// Sorted, duplicate-free candidate ids
// ---------------------------------------------------------------------------

/// Inserts `x` into the strictly increasing `r`, unless it is there already.
pub open spec fn insert_sorted(r: Seq<i64>, x: i64) -> Seq<i64>
    decreases r.len(),
{
    if r.len() == 0 {
        seq![x]
    } else if x < r[0] {
        seq![x] + r
    } else if x == r[0] {
        r
    } else {
        seq![r[0]] + insert_sorted(r.drop_first(), x)
    }
}

/// The ids of `s` in increasing order, each once.
pub open spec fn sort_dedup(s: Seq<i64>) -> Seq<i64>
    decreases s.len(),
{
    if s.len() == 0 {
        seq![]
    } else {
        insert_sorted(sort_dedup(s.drop_last()), s.last())
    }
}

pub open spec fn strictly_increasing(r: Seq<i64>) -> bool {
    forall|i: int, j: int| 0 <= i < j < r.len() ==> r[i] < r[j]
}

proof fn lemma_cons_contains(a: i64, u: Seq<i64>)
    ensures
        forall|y: i64| #[trigger] (seq![a] + u).contains(y) <==> (a == y || u.contains(y)),
{
    assert forall|y: i64| #[trigger] (seq![a] + u).contains(y) <==> (a == y || u.contains(y)) by {
        let q = seq![a] + u;
        if q.contains(y) {
            let k = choose|k: int| 0 <= k < q.len() && q[k] == y;
            if k > 0 {
                assert(u[k - 1] == y);
            }
        }
        if u.contains(y) {
            let k = choose|k: int| 0 <= k < u.len() && u[k] == y;
            assert(q[k + 1] == y);
        }
        if a == y {
            assert(q[0] == y);
        }
    }
}

pub(crate) proof fn lemma_insert_sorted(r: Seq<i64>, x: i64)
    requires
        strictly_increasing(r),
    ensures
        strictly_increasing(insert_sorted(r, x)),
        forall|y: i64| #[trigger] insert_sorted(r, x).contains(y) <==> (r.contains(y) || y == x),
    decreases r.len(),
{
    if r.len() == 0 {
        assert(seq![x][0] == x);
    } else if x < r[0] {
        let q = seq![x] + r;
        assert forall|i: int, j: int| 0 <= i < j < q.len() implies q[i] < q[j] by {
            if i > 0 {
                assert(q[i] == r[i - 1]);
            }
            assert(q[j] == r[j - 1]);
        }
        lemma_cons_contains(x, r);
    } else if x == r[0] {
        assert(r.contains(x));
    } else {
        let t = r.drop_first();
        assert(strictly_increasing(t));
        lemma_insert_sorted(t, x);
        let u = insert_sorted(t, x);
        let q = seq![r[0]] + u;
        assert(r =~= seq![r[0]] + t);
        lemma_cons_contains(r[0], t);
        lemma_cons_contains(r[0], u);
        assert forall|y: i64| t.contains(y) implies r[0] < y by {
            let m = choose|m: int| 0 <= m < t.len() && t[m] == y;
            assert(r[m + 1] == y);
        }
        assert forall|i: int, j: int| 0 <= i < j < q.len() implies q[i] < q[j] by {
            assert(q[j] == u[j - 1]);
            assert(u.contains(u[j - 1]));
            if i > 0 {
                assert(q[i] == u[i - 1]);
            }
        }
        assert forall|y: i64| #[trigger] q.contains(y) <==> (r.contains(y) || y == x) by {
            assert((seq![r[0]] + t).contains(y) <==> (r[0] == y || t.contains(y)));
            assert(u.contains(y) <==> (t.contains(y) || y == x));
        }
    }
}

/// Law: the normalised candidate ids are strictly increasing and are exactly
/// the ids given, each once.
pub proof fn lemma_sort_dedup(s: Seq<i64>)
    ensures
        strictly_increasing(sort_dedup(s)),
        forall|y: i64| #[trigger] sort_dedup(s).contains(y) <==> s.contains(y),
    decreases s.len(),
{
    if s.len() > 0 {
        lemma_sort_dedup(s.drop_last());
        lemma_insert_sorted(sort_dedup(s.drop_last()), s.last());
        assert forall|y: i64| sort_dedup(s).contains(y) <==> s.contains(y) by {
            if s.drop_last().contains(y) {
                let k = choose|k: int| 0 <= k < s.drop_last().len() && s.drop_last()[k] == y;
                assert(s[k] == y);
            }
            if s.contains(y) && y != s.last() {
                let k = choose|k: int| 0 <= k < s.len() && s[k] == y;
                assert(s.drop_last()[k] == y);
            }
            if y == s.last() {
                assert(s[s.len() - 1] == y);
            }
        }
    }
}

pub(crate) fn insert_sorted_exec(r: &mut Vec<i64>, x: i64)
    ensures
        final(r)@ == insert_sorted(old(r)@, x),
{
    let ghost r0 = r@;
    let mut p: usize = 0;
    assert(r@.skip(0) =~= r@);
    while p < r.len() && r[p] < x
        invariant
            p <= r.len(),
            r@ == r0,
            insert_sorted(r0, x) == r0.take(p as int) + insert_sorted(r0.skip(p as int), x),
        decreases r.len() - p,
    {
        let ghost rest = r0.skip(p as int);
        assert(rest.drop_first() =~= r0.skip(p + 1));
        assert(r0.take(p + 1) =~= r0.take(p as int) + seq![rest[0]]);
        p += 1;
    }
    let ghost rest = r0.skip(p as int);
    if p < r.len() && r[p] == x {
        assert(r0.take(p as int) + rest =~= r0);
        return;
    }
    r.insert(p, x);
    proof {
        if p < r0.len() {
            assert(insert_sorted(rest, x) == seq![x] + rest);
        } else {
            assert(rest.len() == 0);
        }
        assert(r@ =~= r0.take(p as int) + (seq![x] + rest));
    }
}

pub fn sort_dedup_exec(v: &Vec<i64>) -> (r: Vec<i64>)
    ensures
        r@ == sort_dedup(v@),
{
    let mut r: Vec<i64> = Vec::new();
    let mut i: usize = 0;
    while i < v.len()
        invariant
            i <= v.len(),
            r@ == sort_dedup(v@.take(i as int)),
        decreases v.len() - i,
    {
        assert(v@.take(i + 1).drop_last() =~= v@.take(i as int));
        insert_sorted_exec(&mut r, v[i]);
        i += 1;
    }
    assert(v@.take(v@.len() as int) =~= v@);
    r
}

// ---------------------------------------------------------------------------
// Fresh block ids
// ---------------------------------------------------------------------------

/// How many of `seen` are at least `n` characters long.
pub open spec fn count_long(seen: Seq<Seq<char>>, n: nat) -> nat
    decreases seen.len(),
{
    if seen.len() == 0 {
        0
    } else {
        count_long(seen.drop_last(), n) + if seen.last().len() >= n {
            1nat
        } else {
            0nat
        }
    }
}

pub proof fn lemma_count_long(seen: Seq<Seq<char>>, c: Seq<char>)
    ensures
        count_long(seen, c.len() + 1) <= count_long(seen, c.len()),
        seen.contains(c) ==> count_long(seen, c.len() + 1) < count_long(seen, c.len()),
    decreases seen.len(),
{
    if seen.len() > 0 {
        lemma_count_long(seen.drop_last(), c);
        if seen.contains(c) && seen.last() != c {
            let k = choose|k: int| 0 <= k < seen.len() && seen[k] == c;
            assert(seen.drop_last()[k] == c);
        }
    }
}

/// `base` followed by the fewest `x` (at least `k`) that make it new to `seen`.
pub open spec fn fresh_from(base: Seq<char>, seen: Seq<Seq<char>>, k: nat) -> Seq<char>
    decreases count_long(seen, base.len() + k),
{
    let cand = base + repeat_char('x', k);
    if seen.contains(cand) {
        proof {
            lemma_repeat_len('x', k);
            lemma_count_long(seen, cand);
        }
        fresh_from(base, seen, k + 1)
    } else {
        cand
    }
}

pub proof fn lemma_repeat_len(c: char, n: nat)
    ensures
        repeat_char(c, n).len() == n,
    decreases n,
{
    if n > 0 {
        lemma_repeat_len(c, (n - 1) as nat);
    }
}

/// The id given to block `index` when its own id is empty or taken.
pub open spec fn generated_id(index: int, seen: Seq<Seq<char>>) -> Seq<char> {
    fresh_from("flow-block-"@ + decimal((index + 1) as nat), seen, 0)
}

pub(crate) fn seen_contains(seen: &Vec<Vec<char>>, c: &Vec<char>) -> (b: bool)
    ensures
        b == crate::text::views(seen@).contains(c@),
{
    let ghost sv = crate::text::views(seen@);
    let mut i: usize = 0;
    while i < seen.len()
        invariant
            i <= seen.len(),
            sv == crate::text::views(seen@),
            forall|j: int| 0 <= j < i ==> sv[j] != c@,
        decreases seen.len() - i,
    {
        assert(sv[i as int] == seen@[i as int]@);
        if eq_chars(&seen[i], c) {
            assert(sv.contains(c@));
            return true;
        }
        i += 1;
    }
    false
}

pub(crate) fn fresh_id_exec(base: Vec<char>, seen: &Vec<Vec<char>>) -> (r: Vec<char>)
    ensures
        r@ == fresh_from(base@, crate::text::views(seen@), 0),
{
    let ghost sv = crate::text::views(seen@);
    let mut cand = base;
    let ghost b0 = cand@;
    let ghost mut k: nat = 0;
    assert(repeat_char('x', 0) =~= seq![]);
    assert(cand@ =~= b0 + repeat_char('x', 0));
    while seen_contains(seen, &cand)
        invariant
            sv == crate::text::views(seen@),
            cand@ == b0 + repeat_char('x', k),
            fresh_from(b0, sv, 0) == fresh_from(b0, sv, k),
        decreases count_long(sv, b0.len() + k),
    {
        proof {
            lemma_repeat_len('x', k);
            lemma_count_long(sv, cand@);
        }
        cand.push('x');
        proof {
            k = k + 1;
            assert(cand@ =~= b0 + repeat_char('x', k));
        }
    }
    cand
}

// ---------------------------------------------------------------------------
// Normalising a saved flow
// ---------------------------------------------------------------------------

/// What normalisation has seen and kept so far.
pub struct NormState {
    pub seen: Seq<Seq<char>>,
    pub has_new_context: bool,
    pub last_pattern: Option<i64>,
    pub out: Seq<FlowBlock>,
}

pub open spec fn initial_norm_state() -> NormState {
    NormState { seen: seq![], has_new_context: false, last_pattern: None, out: seq![] }
}

/// The trimmed id, at most 100 characters.
pub open spec fn clipped_id(id: Seq<char>) -> Seq<char> {
    let t = trim(id);
    if t.len() > 100 {
        t.take(100)
    } else {
        t
    }
}

/// The id that block `index` keeps: its own when non-empty and new, else a generated one.
pub open spec fn block_id(id: Seq<char>, index: int, seen: Seq<Seq<char>>) -> Seq<char> {
    let c = clipped_id(id);
    if c.len() == 0 || seen.contains(c) {
        generated_id(index, seen)
    } else {
        c
    }
}

pub open spec fn with_id(b: FlowBlock, id: Seq<char>) -> FlowBlock {
    FlowBlock { id, ..b }
}

pub open spec fn strategy_ids_contain(sts: Seq<PatternStrategyInput>, id: i64) -> bool {
    exists|j: int| 0 <= j < sts.len() && sts[j].id == Some(id)
}

pub open spec fn all_known(used: Seq<i64>, sts: Seq<PatternStrategyInput>) -> bool {
    forall|i: int| 0 <= i < used.len() ==> strategy_ids_contain(sts, #[trigger] used[i])
}

/// One block of normalisation: skip it, keep it (normalised) or fail.
pub open spec fn norm_step(st: NormState, b: FlowBlock, index: int, inherited: Set<i64>) -> Result<NormState, Seq<char>> {
    let id = block_id(b.id, index, st.seen);
    let seen = st.seen.push(id);
    let b1 = with_id(b, id);
    let skip = NormState { seen, ..st };
    let ty = b.block_type;
    let kept = NormState { seen, has_new_context: true, last_pattern: None, out: st.out.push(b1) };
    if (ty == "text"@ || ty == "caution"@) && trim(b.content).len() == 0 {
        Ok(skip)
    } else if ty == "formula"@ && trim(b.latex).len() == 0 {
        Ok(skip)
    } else if ty == "heading"@ && trim(b.text).len() == 0 {
        Ok(skip)
    } else if ty == "text"@ || ty == "caution"@ {
        match field_error(b.content, "考え方の文章"@) {
            Some(e) => Err(e),
            None => Ok(kept),
        }
    } else if ty == "formula"@ {
        match field_error(b.latex, "考え方の数式"@) {
            Some(e) => Err(e),
            None => Ok(kept),
        }
    } else if ty == "heading"@ {
        match field_error(b.text, "考え方の見出し"@) {
            Some(e) => Err(e),
            None => Ok(kept),
        }
    } else if ty == "pattern"@ {
        match b.pattern_id {
            Some(pid) if pid > 0 => {
                if (inherited.contains(pid) && !st.has_new_context) || st.last_pattern == Some(pid) {
                    Ok(skip)
                } else {
                    match b.snapshot {
                        None => Err("定石BlockにPatternSnapshotがありません"@),
                        Some(snap) => {
                            let version = match b.pattern_version {
                                Some(v) => v,
                                None => snap.version,
                            };
                            let used = sort_dedup(b.used);
                            if version < 0 || snap.version != version {
                                Err("定石BlockのpatternVersionとsnapshotが一致しません"@)
                            } else if !all_known(used, snap.strategies) {
                                Err("定石Blockに存在しないCandidate Strategyが指定されています"@)
                            } else {
                                let b2 = FlowBlock { used, pattern_version: Some(version), ..b1 };
                                Ok(NormState { seen, has_new_context: st.has_new_context, last_pattern: Some(pid), out: st.out.push(b2) })
                            }
                        },
                    }
                }
            },
            _ => Err("定石BlockにpatternIdがありません"@),
        }
    } else {
        Err("未対応の考え方Blockです: "@ + ty)
    }
}

/// Normalisation of the first `k` blocks.
pub open spec fn norm_steps(bs: Seq<FlowBlock>, inherited: Set<i64>, k: int) -> Result<NormState, Seq<char>>
    decreases k,
{
    if k <= 0 {
        Ok(initial_norm_state())
    } else {
        match norm_steps(bs, inherited, k - 1) {
            Err(e) => Err(e),
            Ok(st) => norm_step(st, bs[k - 1], k - 1, inherited),
        }
    }
}

/// A saved flow checked and normalised: at most 120 blocks; ids trimmed,
/// clipped and made unique; blank blocks dropped; a pattern repeated right
/// after itself, or repeating an inherited pattern before any new context,
/// dropped; snapshot versions and candidate ids checked.
pub open spec fn normalized_flow(bs: Seq<FlowBlock>, inherited: Set<i64>) -> Result<Seq<FlowBlock>, Seq<char>> {
    if bs.len() > 120 {
        Err("考え方は最大120ブロックです"@)
    } else {
        match norm_steps(bs, inherited, bs.len() as int) {
            Ok(st) => Ok(st.out),
            Err(e) => Err(e),
        }
    }
}

pub proof fn lemma_norm_err_persists(bs: Seq<FlowBlock>, inherited: Set<i64>, k: int, m: int)
    requires
        0 <= k <= m,
        norm_steps(bs, inherited, k) is Err,
    ensures
        norm_steps(bs, inherited, m) == norm_steps(bs, inherited, k),
    decreases m - k,
{
    if m > k {
        lemma_norm_err_persists(bs, inherited, k, m - 1);
    }
}

fn id_of_block(b: &SolutionFlowBlock, index: usize, seen: &Vec<Vec<char>>) -> (r: Vec<char>)
    requires
        index < usize::MAX,
    ensures
        r@ == block_id(b@.id, index as int, crate::text::views(seen@)),
{
    let c0 = chars_of(b.id.as_str());
    let t = trim_of(&c0);
    let c = if t.len() > 100 {
        slice_of(&t, 0, 100)
    } else {
        t
    };
    proof {
        if t@.len() > 100 {
            assert(c@ =~= t@.take(100));
        }
    }
    if c.len() == 0 || seen_contains(seen, &c) {
        let mut base = chars_of("flow-block-");
        let n = decimal_of((index + 1) as u64);
        push_all(&mut base, &n);
        fresh_id_exec(base, seen)
    } else {
        c
    }
}

fn all_known_exec(used: &Vec<i64>, sts: &Vec<PatternStrategyInput>) -> (b: bool)
    ensures
        b == all_known(used@, sts@),
{
    let mut i: usize = 0;
    while i < used.len()
        invariant
            i <= used.len(),
            forall|j: int| 0 <= j < i ==> strategy_ids_contain(sts@, #[trigger] used@[j]),
        decreases used.len() - i,
    {
        let mut found = false;
        let mut k: usize = 0;
        while k < sts.len()
            invariant
                i < used.len(),
                k <= sts.len(),
                found == exists|j: int| 0 <= j < k && sts@[j].id == Some(used@[i as int]),
            decreases sts.len() - k,
        {
            if sts[k].id == Some(used[i]) {
                found = true;
            }
            k += 1;
        }
        if !found {
            assert(!strategy_ids_contain(sts@, used@[i as int]));
            assert(!all_known(used@, sts@));
            return false;
        }
        i += 1;
    }
    true
}

fn set_block_id(b: &mut SolutionFlowBlock, id: &Vec<char>)
    ensures
        final(b)@ == with_id(old(b)@, id@),
{
    b.id = string_of(id);
}

/// Checks a saved flow and normalises it, keeping snapshots as saved.
#[verifier::rlimit(50)]
pub fn normalize_saved_flow_blocks(blocks: Vec<SolutionFlowBlock>, inherited_pattern_ids: &HashSet<i64>) -> (r: Result<Vec<SolutionFlowBlock>, String>)
    ensures
        match normalized_flow(flow_view(blocks@), inherited_pattern_ids@) {
            Ok(out) => r is Ok && flow_view(r->Ok_0@) == out,
            Err(e) => r is Err && r->Err_0@ == e,
        },
{
    let ghost bs = flow_view(blocks@);
    let ghost inh = inherited_pattern_ids@;
    if blocks.len() > 120 {
        return Err(string_of(&chars_of("考え方は最大120ブロックです")));
    }
    let len0 = blocks.len();
    let ghost n = len0 as int;
    let mut rest = blocks;
    let mut seen: Vec<Vec<char>> = Vec::new();
    let mut has_new_context = false;
    let mut last_pattern: Option<i64> = None;
    let mut out: Vec<SolutionFlowBlock> = Vec::new();
    let mut index: usize = 0;
    assert(crate::text::views(seen@) =~= seq![]);
    assert(flow_view(out@) =~= seq![]);
    while rest.len() > 0
        invariant
            index <= n <= 120,
            rest@.len() == n - index,
            bs == flow_view(blocks@),
            bs.len() == n,
            inh == inherited_pattern_ids@,
            forall|j: int| 0 <= j < rest@.len() ==> #[trigger] rest@[j]@ == bs[index + j],
            norm_steps(bs, inh, index as int) == Ok::<NormState, Seq<char>>(NormState {
                seen: crate::text::views(seen@),
                has_new_context,
                last_pattern,
                out: flow_view(out@),
            }),
        decreases rest.len(),
    {
        let mut block = rest.remove(0);
        let ghost b = bs[index as int];
        assert(block@ == b);
        let ghost st = NormState { seen: crate::text::views(seen@), has_new_context, last_pattern, out: flow_view(out@) };
        let id = id_of_block(&block, index, &seen);
        let ghost sv = crate::text::views(seen@);
        let id_copy = slice_of(&id, 0, id.len());
        assert(id_copy@ =~= id@);
        seen.push(id_copy);
        assert(crate::text::views(seen@) =~= sv.push(id@));
        set_block_id(&mut block, &id);
        let ghost next = norm_step(st, b, index as int, inh);
        assert(norm_steps(bs, inh, index + 1) == next);
        proof {
            if next is Err {
                lemma_norm_err_persists(bs, inh, index + 1, n);
            }
        }
        let is_text = block_is(&block, "text");
        let is_caution = block_is(&block, "caution");
        let is_formula = block_is(&block, "formula");
        let is_heading = block_is(&block, "heading");
        let is_pattern = block_is(&block, "pattern");
        let content = chars_of(block.content.as_str());
        let latex = chars_of(block.latex.as_str());
        let text = chars_of(block.text.as_str());
        proof {
            crate::flow_render::lemma_block_types_distinct();
        }
        if (is_text || is_caution) && is_blank(&content) {
            index += 1;
            continue;
        }
        if is_formula && is_blank(&latex) {
            index += 1;
            continue;
        }
        if is_heading && is_blank(&text) {
            index += 1;
            continue;
        }
        if is_text || is_caution {
            match non_empty_chars(&content, "考え方の文章") {
                Err(e) => {
                    return Err(string_of(&e));
                },
                Ok(()) => {},
            }
        } else if is_formula {
            match non_empty_chars(&latex, "考え方の数式") {
                Err(e) => return Err(string_of(&e)),
                Ok(()) => {},
            }
        } else if is_heading {
            match non_empty_chars(&text, "考え方の見出し") {
                Err(e) => return Err(string_of(&e)),
                Ok(()) => {},
            }
        } else if is_pattern {
            let pid = match block.pattern_id {
                Some(p) => {
                    if p > 0 {
                        p
                    } else {
                        return Err(string_of(&chars_of("定石BlockにpatternIdがありません")));
                    }
                },
                None => return Err(string_of(&chars_of("定石BlockにpatternIdがありません"))),
            };
            if (inherited_pattern_ids.contains(&pid) && !has_new_context) || last_pattern == Some(pid) {
                index += 1;
                continue;
            }
            let version = match &block.snapshot {
                None => return Err(string_of(&chars_of("定石BlockにPatternSnapshotがありません"))),
                Some(snap) => {
                    let version = match block.pattern_version {
                        Some(v) => v,
                        None => snap.version,
                    };
                    if version < 0 || snap.version != version {
                        return Err(string_of(&chars_of("定石BlockのpatternVersionとsnapshotが一致しません")));
                    }
                    let used = sort_dedup_exec(&block.used_strategy_ids);
                    if !all_known_exec(&used, &snap.strategies) {
                        return Err(string_of(&chars_of("定石Blockに存在しないCandidate Strategyが指定されています")));
                    }
                    block.used_strategy_ids = used;
                    version
                },
            };
            block.pattern_version = Some(version);
            last_pattern = Some(pid);
            let ghost pv = flow_view(out@);
            out.push(block);
            assert(flow_view(out@) =~= pv.push(block@));
            index += 1;
            continue;
        } else {
            let mut e = chars_of("未対応の考え方Blockです: ");
            let ty = chars_of(block.block_type.as_str());
            push_all(&mut e, &ty);
            return Err(string_of(&e));
        }
        has_new_context = true;
        last_pattern = None;
        let ghost pv = flow_view(out@);
        out.push(block);
        assert(flow_view(out@) =~= pv.push(block@));
        index += 1;
    }
    Ok(out)
}

// ---------------------------------------------------------------------------
// Wording of generated flows
// ---------------------------------------------------------------------------

/// Generated wording rewritten in terms that students know and without
/// reference to how the flow was produced.
pub open spec fn student_wording(s0: Seq<char>) -> Seq<char> {
    let s1 = replace_all(s0, "既存答案の結論に至る"@, "求める結論が得られる"@);
    let s2 = replace_all(s1, "保存済み答案の結論に至る"@, "求める結論が得られる"@);
    let s3 = replace_all(s2, "既存の答案の結論に至る"@, "求める結論が得られる"@);
    let s4 = replace_all(s3, "保存済みの答案の結論に至る"@, "求める結論が得られる"@);
    let s5 = replace_all(s4, "既存答案の置換"@, "この置換"@);
    let s6 = replace_all(s5, "保存済み答案の置換"@, "この置換"@);
    let s7 = replace_all(s6, "既存の答案の置換"@, "この置換"@);
    let s8 = replace_all(s7, "保存済みの答案の置換"@, "この置換"@);
    let s9 = replace_all(s8, "保存済みの既存答案"@, "この解法"@);
    let s10 = replace_all(s9, "保存済みの答案"@, "この解法"@);
    let s11 = replace_all(s10, "保存済み答案"@, "この解法"@);
    let s12 = replace_all(s11, "既存の答案"@, "この解法"@);
    let s13 = replace_all(s12, "既存答案"@, "この解法"@);
    let s14 = replace_all(s13, "既存の解答"@, "この解法"@);
    let s15 = replace_all(s14, "保存済みの解答"@, "この解法"@);
    let s16 = replace_all(s15, "参照答案"@, "この解法"@);
    let s17 = replace_all(s16, "参照解答"@, "この解法"@);
    let s18 = replace_all(s17, "元の答案"@, "この解法"@);
    let s19 = replace_all(s18, "元の解答"@, "この解法"@);
    let s20 = replace_all(s19, "クロスターム"@, "積を含む項"@);
    let s21 = replace_all(s20, "交差項"@, "積を含む項"@);
    let s22 = replace_all(s21, "下界"@, "これより小さくならない値"@);
    let s23 = replace_all(s22, "上界"@, "これより大きくならない値"@);
    let s24 = replace_all(s23, "Candidate"@, "候補"@);
    let s25 = replace_all(s24, "Pattern"@, "定石"@);
    let s26 = replace_all(s25, "Flow"@, "考え方"@);
    let s27 = replace_all(s26, "Block"@, "部分"@);
    replace_all(s27, "Snapshot"@, "保存時点の定石"@)
}

fn student_wording_chars(s0: &Vec<char>) -> (r: Vec<char>)
    ensures
        r@ == student_wording(s0@),
{
    let s1 = replace_str(s0, "既存答案の結論に至る", "求める結論が得られる");
    let s2 = replace_str(&s1, "保存済み答案の結論に至る", "求める結論が得られる");
    let s3 = replace_str(&s2, "既存の答案の結論に至る", "求める結論が得られる");
    let s4 = replace_str(&s3, "保存済みの答案の結論に至る", "求める結論が得られる");
    let s5 = replace_str(&s4, "既存答案の置換", "この置換");
    let s6 = replace_str(&s5, "保存済み答案の置換", "この置換");
    let s7 = replace_str(&s6, "既存の答案の置換", "この置換");
    let s8 = replace_str(&s7, "保存済みの答案の置換", "この置換");
    let s9 = replace_str(&s8, "保存済みの既存答案", "この解法");
    let s10 = replace_str(&s9, "保存済みの答案", "この解法");
    let s11 = replace_str(&s10, "保存済み答案", "この解法");
    let s12 = replace_str(&s11, "既存の答案", "この解法");
    let s13 = replace_str(&s12, "既存答案", "この解法");
    let s14 = replace_str(&s13, "既存の解答", "この解法");
    let s15 = replace_str(&s14, "保存済みの解答", "この解法");
    let s16 = replace_str(&s15, "参照答案", "この解法");
    let s17 = replace_str(&s16, "参照解答", "この解法");
    let s18 = replace_str(&s17, "元の答案", "この解法");
    let s19 = replace_str(&s18, "元の解答", "この解法");
    let s20 = replace_str(&s19, "クロスターム", "積を含む項");
    let s21 = replace_str(&s20, "交差項", "積を含む項");
    let s22 = replace_str(&s21, "下界", "これより小さくならない値");
    let s23 = replace_str(&s22, "上界", "これより大きくならない値");
    let s24 = replace_str(&s23, "Candidate", "候補");
    let s25 = replace_str(&s24, "Pattern", "定石");
    let s26 = replace_str(&s25, "Flow", "考え方");
    let s27 = replace_str(&s26, "Block", "部分");
    replace_str(&s27, "Snapshot", "保存時点の定石")
}

/// The first term in a teaching text that gives away how the flow was produced.
pub open spec fn production_term(content: Seq<char>) -> Option<Seq<char>> {
    if contains(content, "答案"@) {
        Some("答案"@)
    } else if contains(content, "保存済み"@) {
        Some("保存済み"@)
    } else if contains(content, "生成元"@) {
        Some("生成元"@)
    } else if contains(content, "プロンプト"@) {
        Some("プロンプト"@)
    } else if contains(content, "AI"@) {
        Some("AI"@)
    } else if contains(content, "ジョブ"@) {
        Some("ジョブ"@)
    } else {
        None
    }
}

pub open spec fn production_term_error(term: Seq<char>) -> Seq<char> {
    "考え方の教材本文に制作過程を示す語「"@ + term + "」を入れず、数学上の判断を直接説明してください"@
}

/// A generated block after rewording.
pub open spec fn reworded(b: FlowBlock) -> FlowBlock {
    FlowBlock {
        content: student_wording(b.content),
        text: student_wording(b.text),
        latex: student_wording(b.latex),
        ..b
    }
}

/// The complaint about a reworded generated block, if any.
pub open spec fn generated_block_error(b: FlowBlock) -> Option<Seq<char>> {
    let r = reworded(b);
    if r.block_type == "text"@ || r.block_type == "caution"@ {
        match production_term(r.content) {
            Some(t) => Some(production_term_error(t)),
            None => None,
        }
    } else {
        None
    }
}

fn production_term_exec(content: &Vec<char>) -> (r: Option<&'static str>)
    ensures
        match production_term(content@) {
            Some(t) => r is Some && r->0@ == t,
            None => r is None,
        },
{
    if contains_str(content, "答案") {
        Some("答案")
    } else if contains_str(content, "保存済み") {
        Some("保存済み")
    } else if contains_str(content, "生成元") {
        Some("生成元")
    } else if contains_str(content, "プロンプト") {
        Some("プロンプト")
    } else if contains_str(content, "AI") {
        Some("AI")
    } else if contains_str(content, "ジョブ") {
        Some("ジョブ")
    } else {
        None
    }
}

/// Rewords a generated block for students; a teaching text that still names
/// how it was produced is refused.
pub fn normalize_generated_flow_for_students(block: &mut SolutionFlowBlock) -> (r: Result<(), String>)
    ensures
        final(block)@ == reworded(old(block)@),
        match generated_block_error(old(block)@) {
            Some(e) => r is Err && r->Err_0@ == e,
            None => r is Ok,
        },
{
    let c = chars_of(block.content.as_str());
    let c2 = student_wording_chars(&c);
    block.content = string_of(&c2);
    let t = chars_of(block.text.as_str());
    let t2 = student_wording_chars(&t);
    block.text = string_of(&t2);
    let l = chars_of(block.latex.as_str());
    let l2 = student_wording_chars(&l);
    block.latex = string_of(&l2);
    if block_is(block, "text") || block_is(block, "caution") {
        match production_term_exec(&c2) {
            Some(term) => {
                let mut e = chars_of("考え方の教材本文に制作過程を示す語「");
                push_str(&mut e, term);
                push_str(&mut e, "」を入れず、数学上の判断を直接説明してください");
                return Err(string_of(&e));
            },
            None => {},
        }
    }
    Ok(())
}

pub proof fn lemma_fresh_is_new(base: Seq<char>, seen: Seq<Seq<char>>, k: nat)
    ensures
        !seen.contains(fresh_from(base, seen, k)),
    decreases count_long(seen, base.len() + k),
{
    let cand = base + repeat_char('x', k);
    if seen.contains(cand) {
        lemma_repeat_len('x', k);
        lemma_count_long(seen, cand);
        lemma_fresh_is_new(base, seen, k + 1);
    }
}

/// Every kept block's id was recorded, and no two kept blocks share an id.
pub open spec fn ids_recorded_and_distinct(st: NormState) -> bool {
    &&& forall|i: int| 0 <= i < st.out.len() ==> st.seen.contains(#[trigger] st.out[i].id)
    &&& forall|i: int, j: int| 0 <= i < j < st.out.len() ==> st.out[i].id != st.out[j].id
}

proof fn lemma_step_keeps_ids(st: NormState, b: FlowBlock, index: int, inherited: Set<i64>)
    requires
        ids_recorded_and_distinct(st),
        norm_step(st, b, index, inherited) is Ok,
    ensures
        ids_recorded_and_distinct(norm_step(st, b, index, inherited)->Ok_0),
{
    let id = block_id(b.id, index, st.seen);
    let c = clipped_id(b.id);
    if c.len() == 0 || st.seen.contains(c) {
        lemma_fresh_is_new("flow-block-"@ + decimal((index + 1) as nat), st.seen, 0);
    }
    assert(!st.seen.contains(id));
    let nx = norm_step(st, b, index, inherited)->Ok_0;
    assert(nx.seen == st.seen.push(id));
    assert(nx.out == st.out || (nx.out.len() == st.out.len() + 1 && nx.out.drop_last() == st.out && nx.out.last().id == id));
    assert forall|i: int| 0 <= i < nx.out.len() implies nx.seen.contains(#[trigger] nx.out[i].id) by {
        if i < st.out.len() {
            assert(nx.out[i] == st.out[i]);
            let k = choose|k: int| 0 <= k < st.seen.len() && st.seen[k] == st.out[i].id;
            assert(nx.seen[k] == st.out[i].id);
        } else {
            assert(nx.seen[st.seen.len() as int] == id);
        }
    }
    assert forall|i: int, j: int| 0 <= i < j < nx.out.len() implies nx.out[i].id != nx.out[j].id by {
        if j < st.out.len() {
            assert(nx.out[i] == st.out[i] && nx.out[j] == st.out[j]);
        } else {
            assert(nx.out[i] == st.out[i]);
            assert(st.seen.contains(st.out[i].id));
        }
    }
}

proof fn lemma_steps_keep_ids(bs: Seq<FlowBlock>, inherited: Set<i64>, k: int)
    requires
        norm_steps(bs, inherited, k) is Ok,
    ensures
        ids_recorded_and_distinct(norm_steps(bs, inherited, k)->Ok_0),
    decreases k,
{
    if k > 0 {
        lemma_steps_keep_ids(bs, inherited, k - 1);
        lemma_step_keeps_ids(norm_steps(bs, inherited, k - 1)->Ok_0, bs[k - 1], k - 1, inherited);
    }
}

/// Law: in a normalised flow no two blocks share an id.
pub proof fn lemma_normalized_ids_unique(bs: Seq<FlowBlock>, inherited: Set<i64>)
    requires
        normalized_flow(bs, inherited) is Ok,
    ensures
        forall|i: int, j: int|
            0 <= i < j < normalized_flow(bs, inherited)->Ok_0.len() ==> normalized_flow(bs, inherited)->Ok_0[i].id
                != normalized_flow(bs, inherited)->Ok_0[j].id,
{
    lemma_steps_keep_ids(bs, inherited, bs.len() as int);
}


/// A pattern block as normalisation keeps it: a positive pattern id, a
/// snapshot whose version the block names, and candidate ids that increase
/// strictly and all belong to the snapshot.
pub open spec fn pattern_block_ok(b: FlowBlock) -> bool {
    match (b.pattern_id, b.snapshot) {
        (Some(pid), Some(s)) => {
            &&& pid > 0
            &&& b.pattern_version == Some(s.version)
            &&& strictly_increasing(b.used)
            &&& all_known(b.used, s.strategies)
        },
        _ => false,
    }
}

/// A block as a normalised flow holds it: a non-empty id, a known type, and
/// the field its type shows filled in and fit for LaTeX.
pub open spec fn kept_block_ok(b: FlowBlock) -> bool {
    let ty = b.block_type;
    &&& b.id.len() > 0
    &&& ty == "text"@ || ty == "caution"@ || ty == "formula"@ || ty == "heading"@ || ty == "pattern"@
    &&& (ty == "text"@ || ty == "caution"@) ==> field_error(b.content, "考え方の文章"@) is None
    &&& ty == "formula"@ ==> field_error(b.latex, "考え方の数式"@) is None
    &&& ty == "heading"@ ==> field_error(b.text, "考え方の見出し"@) is None
    &&& ty == "pattern"@ ==> pattern_block_ok(b)
}

/// `o` is the input block `b` as kept: the same type, texts, pattern and
/// snapshot; only the id, the version and the order of candidates may differ.
pub open spec fn from_input(o: FlowBlock, b: FlowBlock) -> bool {
    &&& o.block_type == b.block_type
    &&& o.content == b.content
    &&& o.text == b.text
    &&& o.latex == b.latex
    &&& o.pattern_id == b.pattern_id
    &&& o.snapshot == b.snapshot
    &&& (o.used == b.used || o.used == sort_dedup(b.used))
}

pub open spec fn out_ok(st: NormState, bs: Seq<FlowBlock>, k: int) -> bool {
    &&& st.out.len() <= k
    &&& forall|i: int| 0 <= i < st.out.len() ==> kept_block_ok(#[trigger] st.out[i])
    &&& forall|i: int| 0 <= i < st.out.len() ==> exists|j: int| 0 <= j < k && from_input(#[trigger] st.out[i], bs[j])
}

proof fn lemma_fresh_len(base: Seq<char>, seen: Seq<Seq<char>>, k: nat)
    ensures
        fresh_from(base, seen, k).len() >= base.len(),
    decreases count_long(seen, base.len() + k),
{
    let cand = base + repeat_char('x', k);
    lemma_repeat_len('x', k);
    if seen.contains(cand) {
        lemma_count_long(seen, cand);
        lemma_fresh_len(base, seen, k + 1);
    }
}

proof fn lemma_step_keeps_out(st: NormState, bs: Seq<FlowBlock>, k: int, inherited: Set<i64>)
    requires
        0 <= k < bs.len(),
        out_ok(st, bs, k),
        norm_step(st, bs[k], k, inherited) is Ok,
    ensures
        out_ok(norm_step(st, bs[k], k, inherited)->Ok_0, bs, k + 1),
{
    crate::flow_render::lemma_block_types_distinct();
    let b = bs[k];
    let id = block_id(b.id, k, st.seen);
    let c = clipped_id(b.id);
    if c.len() == 0 || st.seen.contains(c) {
        let base = "flow-block-"@ + decimal((k + 1) as nat);
        assert(base.len() > 0);
        lemma_fresh_len(base, st.seen, 0);
    }
    assert(id.len() > 0);
    let nx = norm_step(st, b, k, inherited)->Ok_0;
    if nx.out.len() > st.out.len() {
        let o = nx.out.last();
        assert(nx.out.drop_last() =~= st.out);
        assert(from_input(o, b));
        let ty = b.block_type;
        assert(o.id == id);
        if ty == "pattern"@ {
            lemma_sort_dedup(b.used);
            let pid = b.pattern_id->Some_0;
            let snap = b.snapshot->Some_0;
            let version = match b.pattern_version {
                Some(v) => v,
                None => snap.version,
            };
            assert(pid > 0);
            assert(!((inherited.contains(pid) && !st.has_new_context) || st.last_pattern == Some(pid)));
            assert(b.snapshot is Some);
            let b2 = FlowBlock { used: sort_dedup(b.used), pattern_version: Some(version), ..with_id(b, id) };
            assert(nx.out == st.out.push(b2));
            assert(o == b2);
            assert(pattern_block_ok(o));
        } else if ty == "text"@ || ty == "caution"@ {
            assert(field_error(b.content, "考え方の文章"@) is None);
        } else if ty == "formula"@ {
            assert(field_error(b.latex, "考え方の数式"@) is None);
        } else {
            assert(ty == "heading"@);
        }
        assert(kept_block_ok(o));
        assert forall|i: int| 0 <= i < nx.out.len() implies kept_block_ok(#[trigger] nx.out[i]) by {
            if i < st.out.len() {
                assert(nx.out[i] == st.out[i]);
            }
        }
        assert forall|i: int| 0 <= i < nx.out.len() implies exists|j: int| 0 <= j < k + 1 && from_input(#[trigger] nx.out[i], bs[j]) by {
            if i < st.out.len() {
                assert(nx.out[i] == st.out[i]);
                let j = choose|j: int| 0 <= j < k && from_input(st.out[i], bs[j]);
                assert(from_input(nx.out[i], bs[j]));
            } else {
                assert(from_input(nx.out[i], bs[k]));
            }
        }
    } else {
        assert(nx.out == st.out);
        assert forall|i: int| 0 <= i < nx.out.len() implies exists|j: int| 0 <= j < k + 1 && from_input(#[trigger] nx.out[i], bs[j]) by {
            let j = choose|j: int| 0 <= j < k && from_input(st.out[i], bs[j]);
            assert(from_input(nx.out[i], bs[j]));
        }
    }
}

proof fn lemma_steps_keep_out(bs: Seq<FlowBlock>, inherited: Set<i64>, k: int)
    requires
        0 <= k <= bs.len(),
        norm_steps(bs, inherited, k) is Ok,
    ensures
        out_ok(norm_steps(bs, inherited, k)->Ok_0, bs, k),
    decreases k,
{
    if k > 0 {
        lemma_steps_keep_out(bs, inherited, k - 1);
        lemma_step_keeps_out(norm_steps(bs, inherited, k - 1)->Ok_0, bs, k - 1, inherited);
    }
}

/// Law: a flow of more than 120 blocks is refused. A normalised flow is no
/// longer than the saved one; each of its blocks is a saved block (same type,
/// texts, pattern and snapshot) with a non-empty id that no other block has;
/// no text, caution, formula or heading is blank; and each pattern block has a
/// positive pattern id, names its snapshot's version, and lists strictly
/// increasing candidate ids that its snapshot holds.
pub proof fn lemma_normalized_flow_well_formed(bs: Seq<FlowBlock>, inherited: Set<i64>)
    ensures
        bs.len() > 120 ==> normalized_flow(bs, inherited) == Err::<Seq<FlowBlock>, Seq<char>>("考え方は最大120ブロックです"@),
        normalized_flow(bs, inherited) matches Ok(out) ==> {
            &&& out.len() <= bs.len()
            &&& forall|i: int| 0 <= i < out.len() ==> kept_block_ok(#[trigger] out[i])
            &&& forall|i: int| 0 <= i < out.len() ==> exists|j: int| 0 <= j < bs.len() && from_input(#[trigger] out[i], bs[j])
            &&& forall|i: int, j: int| 0 <= i < j < out.len() ==> out[i].id != out[j].id
        },
{
    if bs.len() <= 120 && normalized_flow(bs, inherited) is Ok {
        lemma_steps_keep_out(bs, inherited, bs.len() as int);
        lemma_steps_keep_ids(bs, inherited, bs.len() as int);
    }
}

} // verus!
