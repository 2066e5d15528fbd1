//! Editing generated flows so that they follow the saved answer: sub-question
//! headings, method headings, shared pattern cards, and pattern snapshots.
use vstd::prelude::*;
use std::collections::HashSet;
use vstd::slice::SliceAdditionalExecFns;
use crate::models::{
    clone_block, clone_snapshot, flow_view, plain_block, FlowBlock, PatternSnapshot, SnapshotView,
    SolutionFlowBlock,
};
use crate::flow_headings::{after_part_marker, after_part_marker_chars, is_method_heading, is_method_heading_chars};
use crate::flow_render::{block_is, ensure_pattern_usage_explanations, lemma_block_types_distinct, with_usage};
use crate::flow_normalize::{
    generated_block_error, normalize_generated_flow_for_students, normalize_saved_flow_blocks,
    normalized_flow, reworded,
};
use crate::text::{chars_of, decimal, decimal_of, eq_chars, push_all, push_str, string_of, trim, trim_of};

verus! {

// ---------------------------------------------------------------------------
// Sub-question headings
// ---------------------------------------------------------------------------

pub open spec fn heading_present(bs: Seq<FlowBlock>, expected: Seq<char>) -> bool {
    exists|i: int| 0 <= i < bs.len() && #[trigger] bs[i].block_type == "heading"@ && trim(bs[i].text) == trim(expected)
}

/// The rest of a text or heading block after the sub-question marker.
pub open spec fn marker_rest(b: FlowBlock, expected: Seq<char>) -> Option<Seq<char>> {
    if b.block_type == "text"@ {
        after_part_marker(b.content, expected)
    } else if b.block_type == "heading"@ {
        after_part_marker(b.text, expected)
    } else {
        None
    }
}

/// The first block at or after `i` that starts with the marker.
pub open spec fn first_marked(bs: Seq<FlowBlock>, expected: Seq<char>, i: int) -> Option<int>
    decreases bs.len() - i,
{
    if i < 0 || i >= bs.len() {
        None
    } else if marker_rest(bs[i], expected) is Some {
        Some(i)
    } else {
        first_marked(bs, expected, i + 1)
    }
}

/// The blocks with the sub-question heading `expected` made a heading block of
/// its own; none when no block carries it.
pub open spec fn promote_one(bs: Seq<FlowBlock>, expected: Seq<char>) -> Option<Seq<FlowBlock>> {
    if heading_present(bs, expected) {
        Some(bs)
    } else {
        match first_marked(bs, expected, 0) {
            None => None,
            Some(i) => {
                let b = bs[i];
                let rem = trim(marker_rest(b, expected)->0);
                let heading = plain_block(trim(b.id) + "-part-heading"@, "heading"@, seq![], trim(expected));
                if rem.len() == 0 {
                    Some(bs.update(i, heading))
                } else {
                    let upd = if b.block_type == "text"@ {
                        FlowBlock { content: rem, ..b }
                    } else {
                        FlowBlock { text: rem, ..b }
                    };
                    Some(bs.update(i, upd).insert(i, heading))
                }
            },
        }
    }
}

/// The blocks after the first `k` headings, and the first heading that failed.
pub open spec fn promote_prefix(bs: Seq<FlowBlock>, hs: Seq<Seq<char>>, k: int) -> (Seq<FlowBlock>, Option<int>)
    decreases k,
{
    if k <= 0 {
        (bs, None)
    } else {
        let (cur, failed) = promote_prefix(bs, hs, k - 1);
        if failed is Some {
            (cur, failed)
        } else {
            match promote_one(cur, hs[k - 1]) {
                Some(n) => (n, None),
                None => (cur, Some(k - 1)),
            }
        }
    }
}

pub open spec fn missing_heading_error(expected: Seq<char>) -> Seq<char> {
    "考え方に答案の設問見出し「"@ + trim(expected) + "」がありません。設問が切り替わる位置へ独立したheading Blockとして入れてください"@
}

fn heading_present_exec(bs: &Vec<SolutionFlowBlock>, et: &Vec<char>) -> (b: bool)
    ensures
        b ==> exists|i: int| 0 <= i < bs@.len() && bs@[i]@.block_type == "heading"@ && trim(bs@[i]@.text) == et@,
        !b ==> forall|i: int| 0 <= i < bs@.len() ==> !(bs@[i]@.block_type == "heading"@ && trim(bs@[i]@.text) == et@),
{
    let mut i: usize = 0;
    while i < bs.len()
        invariant
            i <= bs.len(),
            forall|j: int| 0 <= j < i ==> !(bs@[j]@.block_type == "heading"@ && trim(bs@[j]@.text) == et@),
        decreases bs.len() - i,
    {
        if block_is(&bs[i], "heading") {
            let t = chars_of(bs[i].text.as_str());
            let tt = trim_of(&t);
            if eq_chars(&tt, et) {
                return true;
            }
        }
        i += 1;
    }
    false
}

fn marker_rest_exec(b: &SolutionFlowBlock, expected: &Vec<char>) -> (r: Option<Vec<char>>)
    ensures
        match marker_rest(b@, expected@) {
            Some(x) => r is Some && r->0@ == x,
            None => r is None,
        },
{
    if block_is(b, "text") {
        let c = chars_of(b.content.as_str());
        after_part_marker_chars(&c, expected)
    } else if block_is(b, "heading") {
        let t = chars_of(b.text.as_str());
        after_part_marker_chars(&t, expected)
    } else {
        None
    }
}

fn first_marked_exec(blocks: &Vec<SolutionFlowBlock>, expected: &Vec<char>) -> (r: Option<(usize, Vec<char>)>)
    ensures
        match first_marked(flow_view(blocks@), expected@, 0) {
            Some(k) => 0 <= k < blocks@.len() && (r matches Some((idx, rest)) && idx == k
                && marker_rest(blocks@[k]@, expected@) == Some(rest@)),
            None => r is None,
        },
{
    let ghost bs = flow_view(blocks@);
    let mut i: usize = 0;
    while i < blocks.len()
        invariant
            i <= blocks.len(),
            bs == flow_view(blocks@),
            first_marked(bs, expected@, 0) == first_marked(bs, expected@, i as int),
        decreases blocks.len() - i,
    {
        assert(bs[i as int] == blocks@[i as int]@);
        match marker_rest_exec(&blocks[i], expected) {
            Some(rest) => {
                return Some((i, rest));
            },
            None => {},
        }
        i += 1;
    }
    None
}

fn promote_one_exec(blocks: &mut Vec<SolutionFlowBlock>, expected: &Vec<char>) -> (ok: bool)
    ensures
        match promote_one(flow_view(old(blocks)@), expected@) {
            Some(n) => ok && flow_view(final(blocks)@) == n,
            None => !ok && final(blocks)@ == old(blocks)@,
        },
{
    let ghost bs = flow_view(blocks@);
    let et = trim_of(expected);
    let present = heading_present_exec(blocks, &et);
    proof {
        if present {
            let i = choose|i: int| 0 <= i < blocks@.len() && blocks@[i]@.block_type == "heading"@ && trim(blocks@[i]@.text) == et@;
            assert(bs[i] == blocks@[i]@);
            assert(heading_present(bs, expected@));
        } else {
            assert forall|i: int| 0 <= i < bs.len() implies !(#[trigger] bs[i].block_type == "heading"@ && trim(bs[i].text) == trim(expected@)) by {
                assert(bs[i] == blocks@[i]@);
            }
        }
    }
    if present {
        return true;
    }
    // first block that carries the marker
    let found = first_marked_exec(blocks, expected);
    match found {
        None => {
            false
        },
        Some((k, rest)) => {
            let rem = trim_of(&rest);
            let idc = chars_of(blocks[k].id.as_str());
            let mut hid = trim_of(&idc);
            push_str(&mut hid, "-part-heading");
            let empty: Vec<char> = Vec::new();
            let heading = crate::flow_render::new_plain_block(&hid, "heading", &empty, &et);
            let mut b = blocks.remove(k);
            assert(b@ == bs[k as int]);
            if rem.len() == 0 {
                blocks.insert(k, heading);
                assert(flow_view(blocks@) =~= bs.update(k as int, heading@));
            } else {
                let is_text = block_is(&b, "text");
                if is_text {
                    b.content = string_of(&rem);
                } else {
                    b.text = string_of(&rem);
                }
                blocks.insert(k, b);
                blocks.insert(k, heading);
                assert(flow_view(blocks@) =~= bs.update(k as int, b@).insert(k as int, heading@));
            }
            true
        },
    }
}

/// Makes every sub-question heading of the answer a heading block of its own:
/// a text or heading block that starts with `(2)では、…` is split into the
/// heading `(2)` and the rest. Fails when some heading appears nowhere.
pub fn promote_flow_part_headings(blocks: &mut Vec<SolutionFlowBlock>, answer_part_headings: &[String]) -> (r: Result<(), String>)
    ensures
        ({
            let hs = answer_part_headings@.map_values(|h: String| h@);
            let (res, failed) = promote_prefix(flow_view(old(blocks)@), hs, hs.len() as int);
            &&& flow_view(final(blocks)@) == res
            &&& match failed {
                Some(j) => r is Err && r->Err_0@ == missing_heading_error(hs[j]),
                None => r is Ok,
            }
        }),
{
    let ghost bs0 = flow_view(blocks@);
    let ghost hs = answer_part_headings@.map_values(|h: String| h@);
    let mut k: usize = 0;
    while k < answer_part_headings.len()
        invariant
            k <= answer_part_headings@.len(),
            hs == answer_part_headings@.map_values(|h: String| h@),
            bs0 == flow_view(old(blocks)@),
            promote_prefix(bs0, hs, k as int) == (flow_view(blocks@), None::<int>),
        decreases answer_part_headings.len() - k,
    {
        let e = chars_of(answer_part_headings[k].as_str());
        assert(e@ == hs[k as int]);
        let ok = promote_one_exec(blocks, &e);
        if !ok {
            proof {
                lemma_promote_failed_stays(bs0, hs, k + 1, hs.len() as int);
            }
            let mut msg = chars_of("考え方に答案の設問見出し「");
            let et = trim_of(&e);
            push_all(&mut msg, &et);
            push_str(&mut msg, "」がありません。設問が切り替わる位置へ独立したheading Blockとして入れてください");
            return Err(string_of(&msg));
        }
        k += 1;
    }
    Ok(())
}

pub proof fn lemma_promote_failed_stays(bs: Seq<FlowBlock>, hs: Seq<Seq<char>>, k: int, m: int)
    requires
        0 <= k <= m,
        promote_prefix(bs, hs, k).1 is Some,
    ensures
        promote_prefix(bs, hs, m) == promote_prefix(bs, hs, k),
    decreases m - k,
{
    if m > k {
        lemma_promote_failed_stays(bs, hs, k, m - 1);
    }
}

// ---------------------------------------------------------------------------
// Shared pattern cards before method branches
// ---------------------------------------------------------------------------

pub open spec fn is_method_block(b: FlowBlock) -> bool {
    b.block_type == "heading"@ && is_method_heading(b.text)
}

/// Positions below `k` of method headings.
pub open spec fn method_positions(bs: Seq<FlowBlock>, k: int) -> Seq<int>
    decreases k,
{
    if k <= 0 {
        seq![]
    } else if is_method_block(bs[k - 1]) {
        method_positions(bs, k - 1).push(k - 1)
    } else {
        method_positions(bs, k - 1)
    }
}

/// A pattern card that offers at least two of its candidates.
pub open spec fn is_branching_pattern(b: FlowBlock) -> bool {
    b.block_type == "pattern"@ && b.used.len() >= 2
}

/// The blocks that are (`want`) or are not (`!want`) branching pattern cards.
pub open spec fn select_branching(bs: Seq<FlowBlock>, want: bool) -> Seq<FlowBlock>
    decreases bs.len(),
{
    if bs.len() == 0 {
        seq![]
    } else if is_branching_pattern(bs.last()) == want {
        select_branching(bs.drop_last(), want).push(bs.last())
    } else {
        select_branching(bs.drop_last(), want)
    }
}

/// With two or more method headings, the branching pattern cards between the
/// first and the second move in front of the first, in their order.
pub open spec fn hoisted(bs: Seq<FlowBlock>) -> Seq<FlowBlock> {
    let ms = method_positions(bs, bs.len() as int);
    if ms.len() < 2 {
        bs
    } else {
        let f = ms[0];
        let s = ms[1];
        let mid = bs.subrange(f + 1, s);
        let moved = select_branching(mid, true);
        if moved.len() == 0 {
            bs
        } else {
            bs.take(f) + moved + seq![bs[f]] + select_branching(mid, false) + bs.skip(s)
        }
    }
}

proof fn lemma_method_positions_bounds(bs: Seq<FlowBlock>, k: int)
    requires
        0 <= k <= bs.len(),
    ensures
        forall|j: int| 0 <= j < method_positions(bs, k).len() ==> 0 <= #[trigger] method_positions(bs, k)[j] < k,
        forall|a: int, b: int| 0 <= a < b < method_positions(bs, k).len() ==> method_positions(bs, k)[a] < method_positions(bs, k)[b],
    decreases k,
{
    if k > 0 {
        lemma_method_positions_bounds(bs, k - 1);
        let p = method_positions(bs, k - 1);
        if is_method_block(bs[k - 1]) {
            let q = p.push(k - 1);
            assert(method_positions(bs, k) == q);
            assert forall|j: int| 0 <= j < q.len() implies 0 <= #[trigger] q[j] < k by {
                if j < p.len() {
                    assert(q[j] == p[j]);
                }
            }
            assert forall|a: int, b: int| 0 <= a < b < q.len() implies q[a] < q[b] by {
                assert(q[a] == p[a]);
                if b < p.len() {
                    assert(q[b] == p[b]);
                }
            }
        }
    }
}

fn method_positions_exec(blocks: &Vec<SolutionFlowBlock>) -> (r: Vec<usize>)
    ensures
        r@.len() == method_positions(flow_view(blocks@), blocks@.len() as int).len(),
        forall|j: int| 0 <= j < r@.len() ==> #[trigger] r@[j] as int == method_positions(flow_view(blocks@), blocks@.len() as int)[j],
{
    let ghost bs = flow_view(blocks@);
    let mut r: Vec<usize> = Vec::new();
    let mut i: usize = 0;
    while i < blocks.len()
        invariant
            i <= blocks.len(),
            bs == flow_view(blocks@),
            r@.len() == method_positions(bs, i as int).len(),
            forall|j: int| 0 <= j < r@.len() ==> #[trigger] r@[j] as int == method_positions(bs, i as int)[j],
        decreases blocks.len() - i,
    {
        assert(bs[i as int] == blocks@[i as int]@);
        if block_is(&blocks[i], "heading") {
            let t = chars_of(blocks[i].text.as_str());
            if is_method_heading_chars(&t) {
                r.push(i);
            }
        }
        i += 1;
    }
    r
}

/// Moves a pattern card that offers several candidates, placed between the
/// first and second method heading, in front of the first method heading.
pub fn hoist_branching_pattern_before_method_headings(blocks: &mut Vec<SolutionFlowBlock>)
    ensures
        flow_view(final(blocks)@) == hoisted(flow_view(old(blocks)@)),
{
    let ghost bs = flow_view(blocks@);
    let ms = method_positions_exec(blocks);
    proof {
        lemma_method_positions_bounds(bs, bs.len() as int);
    }
    if ms.len() < 2 {
        return;
    }
    let f = ms[0];
    let s = ms[1];
    assert(f < s);
    let ghost mid = bs.subrange(f + 1, s as int);
    // collect the moved and the kept blocks between the headings
    let mut moved: Vec<SolutionFlowBlock> = Vec::new();
    let mut kept: Vec<SolutionFlowBlock> = Vec::new();
    let mut i: usize = f + 1;
    while i < s
        invariant
            f < s <= blocks.len(),
            f + 1 <= i <= s,
            bs == flow_view(blocks@),
            mid == bs.subrange(f + 1, s as int),
            flow_view(moved@) == select_branching(mid.take(i - f - 1), true),
            flow_view(kept@) == select_branching(mid.take(i - f - 1), false),
        decreases s - i,
    {
        let ghost pre = mid.take(i - f - 1);
        assert(mid.take(i - f) =~= pre.push(bs[i as int]));
        assert(mid.take(i - f).drop_last() =~= pre);
        assert(bs[i as int] == blocks@[i as int]@);
        let b = clone_block(&blocks[i]);
        let branching = block_is(&b, "pattern") && b.used_strategy_ids.len() >= 2;
        if branching {
            let ghost pv = flow_view(moved@);
            moved.push(b);
            assert(flow_view(moved@) =~= pv.push(bs[i as int]));
        } else {
            let ghost pv = flow_view(kept@);
            kept.push(b);
            assert(flow_view(kept@) =~= pv.push(bs[i as int]));
        }
        i += 1;
    }
    assert(mid.take(s - f - 1) =~= mid);
    if moved.len() == 0 {
        return;
    }
    let mut out: Vec<SolutionFlowBlock> = Vec::new();
    let mut j: usize = 0;
    while j < f
        invariant
            j <= f < s <= blocks.len(),
            bs == flow_view(blocks@),
            flow_view(out@) == bs.take(j as int),
        decreases f - j,
    {
        let b = clone_block(&blocks[j]);
        assert(bs[j as int] == blocks@[j as int]@);
        let ghost pv = flow_view(out@);
        out.push(b);
        assert(flow_view(out@) =~= pv.push(bs[j as int]));
        assert(bs.take(j + 1) =~= bs.take(j as int).push(bs[j as int]));
        j += 1;
    }
    let ghost head = flow_view(out@);
    out.append(&mut moved);
    let h = clone_block(&blocks[f]);
    out.push(h);
    out.append(&mut kept);
    let ghost mid_part = flow_view(out@);
    assert(mid_part =~= bs.take(f as int) + select_branching(mid, true) + seq![bs[f as int]] + select_branching(mid, false));
    let mut t: usize = s;
    while t < blocks.len()
        invariant
            s <= t <= blocks.len(),
            bs == flow_view(blocks@),
            flow_view(out@) == mid_part + bs.subrange(s as int, t as int),
        decreases blocks.len() - t,
    {
        let b = clone_block(&blocks[t]);
        assert(bs[t as int] == blocks@[t as int]@);
        let ghost pv = flow_view(out@);
        out.push(b);
        assert(flow_view(out@) =~= pv.push(bs[t as int]));
        assert(bs.subrange(s as int, t + 1) =~= bs.subrange(s as int, t as int).push(bs[t as int]));
        t += 1;
    }
    assert(bs.subrange(s as int, bs.len() as int) =~= bs.skip(s as int));
    *blocks = out;
}

// ---------------------------------------------------------------------------
// Method headings as the answer writes them
// ---------------------------------------------------------------------------

/// Block positions `ms[0..k]` given the texts `hs[0..k]`.
pub open spec fn apply_headings(bs: Seq<FlowBlock>, ms: Seq<int>, hs: Seq<Seq<char>>, k: int) -> Seq<FlowBlock>
    decreases k,
{
    if k <= 0 {
        bs
    } else {
        let prev = apply_headings(bs, ms, hs, k - 1);
        prev.update(ms[k - 1], FlowBlock { text: hs[k - 1], ..prev[ms[k - 1]] })
    }
}

/// The method headings of the flow replaced, in order, by those of the
/// answer; none when their numbers differ.
pub open spec fn aligned_headings(bs: Seq<FlowBlock>, hs: Seq<Seq<char>>) -> Option<Seq<FlowBlock>> {
    let ms = method_positions(bs, bs.len() as int);
    if hs.len() == 0 {
        Some(bs)
    } else if ms.len() != hs.len() {
        None
    } else {
        Some(apply_headings(bs, ms, hs, hs.len() as int))
    }
}

pub open spec fn heading_count_error(answer: nat, flow: nat) -> Seq<char> {
    "考え方の解法見出しが既存答案と一致しません（答案"@ + decimal(answer) + "件、Flow"@ + decimal(flow) + "件）。答案の見出しを省略・要約せず、そのままHeading Blockへ入れてください"@
}

proof fn lemma_apply_headings_len(bs: Seq<FlowBlock>, ms: Seq<int>, hs: Seq<Seq<char>>, k: int)
    requires
        forall|j: int| 0 <= j < k ==> 0 <= #[trigger] ms[j] < bs.len(),
    ensures
        apply_headings(bs, ms, hs, k).len() == bs.len(),
    decreases k,
{
    if k > 0 {
        lemma_apply_headings_len(bs, ms, hs, k - 1);
    }
}

proof fn lemma_method_positions_exact(bs: Seq<FlowBlock>, k: int)
    requires
        0 <= k <= bs.len(),
    ensures
        forall|i: int| method_positions(bs, k).contains(i) <==> 0 <= i < k && is_method_block(bs[i]),
    decreases k,
{
    if k > 0 {
        lemma_method_positions_exact(bs, k - 1);
        let p = method_positions(bs, k - 1);
        if is_method_block(bs[k - 1]) {
            assert forall|i: int| method_positions(bs, k).contains(i) <==> 0 <= i < k && is_method_block(bs[i]) by {
                let q = p.push(k - 1);
                if q.contains(i) && i != k - 1 {
                    let j = choose|j: int| 0 <= j < q.len() && #[trigger] q[j] == i;
                    assert(p[j] == i);
                }
                if p.contains(i) {
                    let j = choose|j: int| 0 <= j < p.len() && #[trigger] p[j] == i;
                    assert(q[j] == i);
                }
                if i == k - 1 {
                    assert(q[p.len() as int] == i);
                }
            }
        }
    }
}

proof fn lemma_apply_headings_at(bs: Seq<FlowBlock>, ms: Seq<int>, hs: Seq<Seq<char>>, k: int)
    requires
        0 <= k <= ms.len(),
        forall|j: int| 0 <= j < ms.len() ==> 0 <= #[trigger] ms[j] < bs.len(),
        forall|a: int, b: int| 0 <= a < b < ms.len() ==> ms[a] < ms[b],
    ensures
        apply_headings(bs, ms, hs, k).len() == bs.len(),
        forall|j: int| 0 <= j < k ==> apply_headings(bs, ms, hs, k)[#[trigger] ms[j]] == (FlowBlock { text: hs[j], ..bs[ms[j]] }),
        forall|i: int| 0 <= i < bs.len() && !ms.take(k).contains(i) ==> #[trigger] apply_headings(bs, ms, hs, k)[i] == bs[i],
    decreases k,
{
    if k > 0 {
        lemma_apply_headings_at(bs, ms, hs, k - 1);
        let prev = apply_headings(bs, ms, hs, k - 1);
        let now = apply_headings(bs, ms, hs, k);
        assert(!ms.take(k - 1).contains(ms[k - 1])) by {
            if ms.take(k - 1).contains(ms[k - 1]) {
                let j = choose|j: int| 0 <= j < k - 1 && #[trigger] ms.take(k - 1)[j] == ms[k - 1];
                assert(ms[j] < ms[k - 1]);
            }
        }
        assert forall|j: int| 0 <= j < k implies now[#[trigger] ms[j]] == (FlowBlock { text: hs[j], ..bs[ms[j]] }) by {
            if j < k - 1 {
                assert(ms[j] < ms[k - 1]);
            }
        }
        assert forall|i: int| 0 <= i < bs.len() && !ms.take(k).contains(i) implies #[trigger] now[i] == bs[i] by {
            assert(ms.take(k)[k - 1] == ms[k - 1]);
            assert(!ms.take(k - 1).contains(i)) by {
                if ms.take(k - 1).contains(i) {
                    let j = choose|j: int| 0 <= j < k - 1 && #[trigger] ms.take(k - 1)[j] == i;
                    assert(ms.take(k)[j] == i);
                }
            }
        }
    }
}

/// Law: with no answer headings the flow stays as it is. Otherwise the flow is
/// refused exactly when its method headings are not as many as the answer's,
/// and where it is not, the k-th method heading of the flow (in block order)
/// takes the k-th heading of the answer as its text, and every other block and
/// every other field stays as it was.
pub proof fn lemma_method_headings_follow_the_answer(bs: Seq<FlowBlock>, hs: Seq<Seq<char>>)
    ensures
        hs.len() == 0 ==> aligned_headings(bs, hs) == Some(bs),
        hs.len() > 0 ==> (aligned_headings(bs, hs) is None <==> method_positions(bs, bs.len() as int).len() != hs.len()),
        forall|i: int| #[trigger] method_positions(bs, bs.len() as int).contains(i) <==> 0 <= i < bs.len() && is_method_block(bs[i]),
        forall|a: int, b: int| 0 <= a < b < method_positions(bs, bs.len() as int).len() ==> method_positions(bs, bs.len() as int)[a]
            < method_positions(bs, bs.len() as int)[b],
        aligned_headings(bs, hs) matches Some(n) ==> {
            let ms = method_positions(bs, bs.len() as int);
            &&& n.len() == bs.len()
            &&& hs.len() > 0 ==> forall|k: int| 0 <= k < ms.len() ==> n[#[trigger] ms[k]] == (FlowBlock { text: hs[k], ..bs[ms[k]] })
            &&& forall|i: int| 0 <= i < bs.len() && !(hs.len() > 0 && ms.contains(i)) ==> #[trigger] n[i] == bs[i]
        },
{
    let ms = method_positions(bs, bs.len() as int);
    lemma_method_positions_bounds(bs, bs.len() as int);
    lemma_method_positions_exact(bs, bs.len() as int);
    if hs.len() > 0 && ms.len() == hs.len() {
        lemma_apply_headings_at(bs, ms, hs, ms.len() as int);
        assert(ms.take(ms.len() as int) =~= ms);
    }
}

/// Replaces the method headings of the flow by the answer's own headings.
pub fn align_flow_headings_with_answer(blocks: &mut [SolutionFlowBlock], answer_headings: &[String]) -> (r: Result<(), String>)
    ensures
        ({
            let hs = answer_headings@.map_values(|h: String| h@);
            let bs = flow_view(old(blocks)@);
            match aligned_headings(bs, hs) {
                Some(n) => r is Ok && flow_view(final(blocks)@) == n,
                None => r is Err && r->Err_0@ == heading_count_error(hs.len(), method_positions(bs, bs.len() as int).len())
                    && final(blocks)@ == old(blocks)@,
            }
        }),
{
    let ghost hs = answer_headings@.map_values(|h: String| h@);
    let ghost bs = flow_view(blocks@);
    if answer_headings.len() == 0 {
        return Ok(());
    }
    let mut ms: Vec<usize> = Vec::new();
    let mut i: usize = 0;
    while i < blocks.len()
        invariant
            i <= blocks@.len(),
            bs == flow_view(blocks@),
            ms@.len() == method_positions(bs, i as int).len(),
            forall|j: int| 0 <= j < ms@.len() ==> #[trigger] ms@[j] as int == method_positions(bs, i as int)[j],
        decreases blocks@.len() - i,
    {
        assert(bs[i as int] == blocks@[i as int]@);
        if block_is(&blocks[i], "heading") {
            let t = chars_of(blocks[i].text.as_str());
            if is_method_heading_chars(&t) {
                ms.push(i);
            }
        }
        i += 1;
    }
    let ghost msv = method_positions(bs, bs.len() as int);
    proof {
        lemma_method_positions_bounds(bs, bs.len() as int);
    }
    if ms.len() != answer_headings.len() {
        let mut msg = chars_of("考え方の解法見出しが既存答案と一致しません（答案");
        let a = decimal_of(answer_headings.len() as u64);
        push_all(&mut msg, &a);
        push_str(&mut msg, "件、Flow");
        let b = decimal_of(ms.len() as u64);
        push_all(&mut msg, &b);
        push_str(&mut msg, "件）。答案の見出しを省略・要約せず、そのままHeading Blockへ入れてください");
        return Err(string_of(&msg));
    }
    let mut k: usize = 0;
    while k < ms.len()
        invariant
            k <= ms@.len() == hs.len() == answer_headings@.len(),
            hs == answer_headings@.map_values(|h: String| h@),
            ms@.len() == msv.len(),
            forall|j: int| 0 <= j < ms@.len() ==> #[trigger] ms@[j] as int == msv[j],
            forall|j: int| 0 <= j < msv.len() ==> 0 <= #[trigger] msv[j] < bs.len(),
            blocks@.len() == bs.len(),
            flow_view(blocks@) == apply_headings(bs, msv, hs, k as int),
        decreases ms.len() - k,
    {
        let p = ms[k];
        assert(msv[k as int] == p as int);
        let mut b = clone_block(&blocks[p]);
        b.text = answer_headings[k].clone();
        let ghost prev = flow_view(blocks@);
        blocks.set(p, b);
        assert(flow_view(blocks@) =~= prev.update(p as int, FlowBlock { text: hs[k as int], ..prev[p as int] }));
        k += 1;
    }
    Ok(())
}

// ---------------------------------------------------------------------------
// Snapshots for generated pattern blocks
// ---------------------------------------------------------------------------

/// The snapshot that the table holds for `id`, the first one listed.
pub open spec fn snapshot_in(table: Seq<(i64, PatternSnapshot)>, id: i64) -> Option<SnapshotView>
    decreases table.len(),
{
    if table.len() == 0 {
        None
    } else if table[0].0 == id {
        Some(table[0].1@)
    } else {
        snapshot_in(table.drop_first(), id)
    }
}

pub open spec fn missing_pattern_error(id: i64) -> Seq<char> {
    "AIが存在しないpatternId "@ + decimal(id as nat) + " を返しました"@
}

/// One generated block reworded and, for a pattern block, given its snapshot.
pub open spec fn hydrate_block(b: FlowBlock, table: Seq<(i64, PatternSnapshot)>) -> Result<FlowBlock, Seq<char>> {
    match generated_block_error(b) {
        Some(e) => Err(e),
        None => {
            let r = reworded(b);
            if r.block_type == "pattern"@ {
                match r.pattern_id {
                    Some(pid) if pid > 0 => match snapshot_in(table, pid) {
                        Some(s) => Ok(FlowBlock { pattern_version: Some(s.version), snapshot: Some(s), ..r }),
                        None => Err(missing_pattern_error(pid)),
                    },
                    _ => Err("AIが定石Blockへ有効なpatternIdを指定しませんでした"@),
                }
            } else {
                Ok(r)
            }
        },
    }
}

pub open spec fn hydrate_steps(bs: Seq<FlowBlock>, table: Seq<(i64, PatternSnapshot)>, k: int) -> Result<Seq<FlowBlock>, Seq<char>>
    decreases k,
{
    if k <= 0 {
        Ok(seq![])
    } else {
        match hydrate_steps(bs, table, k - 1) {
            Err(e) => Err(e),
            Ok(prev) => match hydrate_block(bs[k - 1], table) {
                Err(e) => Err(e),
                Ok(b) => Ok(prev.push(b)),
            },
        }
    }
}

/// A generated flow made ready to save: reworded, snapshots attached from
/// `table`, normalised, usage sentences added, normalised again.
pub open spec fn hydrated_flow(bs: Seq<FlowBlock>, table: Seq<(i64, PatternSnapshot)>, inherited: Set<i64>) -> Result<Seq<FlowBlock>, Seq<char>> {
    match hydrate_steps(bs, table, bs.len() as int) {
        Err(e) => Err(e),
        Ok(h) => match normalized_flow(h, inherited) {
            Err(e) => Err(e),
            Ok(n1) => normalized_flow(with_usage(n1, n1.len() as int), inherited),
        },
    }
}

pub proof fn lemma_hydrate_err_persists(bs: Seq<FlowBlock>, table: Seq<(i64, PatternSnapshot)>, k: int, m: int)
    requires
        0 <= k <= m,
        hydrate_steps(bs, table, k) is Err,
    ensures
        hydrate_steps(bs, table, m) == hydrate_steps(bs, table, k),
    decreases m - k,
{
    if m > k {
        lemma_hydrate_err_persists(bs, table, k, m - 1);
    }
}

fn snapshot_in_exec(table: &Vec<(i64, PatternSnapshot)>, id: i64) -> (r: Option<PatternSnapshot>)
    ensures
        match snapshot_in(table@, id) {
            Some(s) => r is Some && r->0@ == s,
            None => r is None,
        },
{
    let mut i: usize = 0;
    assert(table@.skip(0) =~= table@);
    while i < table.len()
        invariant
            i <= table.len(),
            snapshot_in(table@, id) == snapshot_in(table@.skip(i as int), id),
        decreases table.len() - i,
    {
        let ghost rest = table@.skip(i as int);
        assert(rest.drop_first() =~= table@.skip(i + 1));
        if table[i].0 == id {
            return Some(clone_snapshot(&table[i].1));
        }
        i += 1;
    }
    None
}

fn hydrate_one(block: &mut SolutionFlowBlock, snapshots: &Vec<(i64, PatternSnapshot)>) -> (r: Result<(), String>)
    ensures
        match hydrate_block(old(block)@, snapshots@) {
            Ok(b) => r is Ok && final(block)@ == b,
            Err(e) => r is Err && r->Err_0@ == e,
        },
{
    proof {
        lemma_block_types_distinct();
    }
    match normalize_generated_flow_for_students(block) {
        Err(e) => return Err(e),
        Ok(()) => {},
    }
    if block_is(block, "pattern") {
        let pid = match block.pattern_id {
            Some(p) => {
                if p > 0 {
                    p
                } else {
                    return Err(string_of(&chars_of("AIが定石Blockへ有効なpatternIdを指定しませんでした")));
                }
            },
            None => return Err(string_of(&chars_of("AIが定石Blockへ有効なpatternIdを指定しませんでした"))),
        };
        match snapshot_in_exec(snapshots, pid) {
            None => {
                let mut msg = chars_of("AIが存在しないpatternId ");
                let d = decimal_of(pid as u64);
                push_all(&mut msg, &d);
                push_str(&mut msg, " を返しました");
                return Err(string_of(&msg));
            },
            Some(snap) => {
                block.pattern_version = Some(snap.version);
                block.snapshot = Some(snap);
            },
        }
    }
    Ok(())
}

/// Prepares a generated flow for saving. The snapshots of the patterns that
/// the flow names are given in `snapshots` (a pattern missing there does not exist).
pub fn hydrate_ai_flow_blocks(
    blocks: Vec<SolutionFlowBlock>,
    snapshots: &Vec<(i64, PatternSnapshot)>,
    inherited_pattern_ids: &HashSet<i64>,
) -> (r: Result<Vec<SolutionFlowBlock>, String>)
    ensures
        match hydrated_flow(flow_view(blocks@), snapshots@, inherited_pattern_ids@) {
            Ok(out) => r is Ok && flow_view(r->Ok_0@) == out,
            Err(e) => r is Err && r->Err_0@ == e,
        },
{
    let ghost bs = flow_view(blocks@);
    let len0 = blocks.len();
    let ghost n = len0 as int;
    let mut rest = blocks;
    let mut hydrated: Vec<SolutionFlowBlock> = Vec::new();
    let mut i: usize = 0;
    assert(flow_view(hydrated@) =~= seq![]);
    while rest.len() > 0
        invariant
            i <= n,
            n <= usize::MAX,
            rest@.len() == n - i,
            bs == flow_view(blocks@),
            bs.len() == n,
            forall|j: int| 0 <= j < rest@.len() ==> #[trigger] rest@[j]@ == bs[i + j],
            hydrate_steps(bs, snapshots@, i as int) == Ok::<Seq<FlowBlock>, Seq<char>>(flow_view(hydrated@)),
        decreases rest.len(),
    {
        let mut block = rest.remove(0);
        assert(block@ == bs[i as int]);
        proof {
            if hydrate_steps(bs, snapshots@, i + 1) is Err {
                lemma_hydrate_err_persists(bs, snapshots@, i + 1, n);
            }
        }
        match hydrate_one(&mut block, snapshots) {
            Err(e) => return Err(e),
            Ok(()) => {},
        }
        let ghost pv = flow_view(hydrated@);
        hydrated.push(block);
        assert(flow_view(hydrated@) =~= pv.push(block@));
        i += 1;
    }
    finish_hydration(hydrated, inherited_pattern_ids)
}

fn finish_hydration(hydrated: Vec<SolutionFlowBlock>, inherited_pattern_ids: &HashSet<i64>) -> (r: Result<Vec<SolutionFlowBlock>, String>)
    ensures
        match normalized_flow(flow_view(hydrated@), inherited_pattern_ids@) {
            Err(e) => r is Err && r->Err_0@ == e,
            Ok(n1) => match normalized_flow(with_usage(n1, n1.len() as int), inherited_pattern_ids@) {
                Ok(out) => r is Ok && flow_view(r->Ok_0@) == out,
                Err(e) => r is Err && r->Err_0@ == e,
            },
        },
{
    let normalized = normalize_saved_flow_blocks(hydrated, inherited_pattern_ids)?;
    let with_explanations = ensure_pattern_usage_explanations(normalized);
    normalize_saved_flow_blocks(with_explanations, inherited_pattern_ids)
}

} // verus!
