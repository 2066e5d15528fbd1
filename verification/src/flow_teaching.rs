//! The teaching flow of a problem: the shared flow, then one flow per solution
//! variant, main solution first.
use vstd::prelude::*;
use std::collections::HashSet;
use crate::models::{flow_view, variants_view, FlowBlock, ProblemSolutionVariant, SolutionFlowBlock, VariantView};
use crate::flow_render::{render_flow, render_flow_chars};
use crate::flow_normalize::{normalize_saved_flow_blocks, normalized_flow};
use crate::text::{chars_of, decimal, decimal_of, is_str, join, join_chars, push_all, push_str, string_of, trim, trim_of, views};

verus! {

broadcast use vstd::std_specs::hash::group_hash_axioms;

pub open spec fn is_main(v: VariantView) -> bool {
    v.role == "main"@
}

/// The main variants, in order.
pub open spec fn mains(vs: Seq<VariantView>) -> Seq<VariantView>
    decreases vs.len(),
{
    if vs.len() == 0 {
        seq![]
    } else if is_main(vs.last()) {
        mains(vs.drop_last()).push(vs.last())
    } else {
        mains(vs.drop_last())
    }
}

/// The other variants, in order.
pub open spec fn others(vs: Seq<VariantView>) -> Seq<VariantView>
    decreases vs.len(),
{
    if vs.len() == 0 {
        seq![]
    } else if !is_main(vs.last()) {
        others(vs.drop_last()).push(vs.last())
    } else {
        others(vs.drop_last())
    }
}

/// Variants with the main ones first, each group in its own order.
pub open spec fn ordered(vs: Seq<VariantView>) -> Seq<VariantView> {
    mains(vs) + others(vs)
}

/// Non-blank explanations, trimmed, in order.
pub open spec fn legacy_texts(vs: Seq<VariantView>) -> Seq<Seq<char>>
    decreases vs.len(),
{
    if vs.len() == 0 {
        seq![]
    } else {
        let prev = legacy_texts(vs.drop_last());
        match vs.last().explanation {
            Some(t) => if trim(t).len() > 0 {
                prev.push(trim(t))
            } else {
                prev
            },
            None => prev,
        }
    }
}

/// The first text as is, the `k`-th after it headed `【別解k】`.
pub open spec fn legacy_section(ts: Seq<Seq<char>>, k: int) -> Seq<char> {
    if k == 0 {
        ts[0]
    } else {
        "【別解"@ + decimal(k as nat) + "】\n"@ + ts[k]
    }
}

pub open spec fn legacy_sections(ts: Seq<Seq<char>>) -> Seq<Seq<char>> {
    Seq::new(ts.len(), |k: int| legacy_section(ts, k))
}

/// Variants with a non-empty flow, in order.
pub open spec fn visible(vs: Seq<VariantView>) -> Seq<VariantView>
    decreases vs.len(),
{
    if vs.len() == 0 {
        seq![]
    } else if vs.last().flow.len() > 0 {
        visible(vs.drop_last()).push(vs.last())
    } else {
        visible(vs.drop_last())
    }
}

pub open spec fn branch_label(main: bool, alt: nat) -> Seq<char> {
    if main {
        "【解法1】"@
    } else {
        "【別解"@ + decimal(alt) + "】"@
    }
}

/// Sections of the first `k` visible variants, and how many alternatives got a label.
pub open spec fn variant_sections(vis: Seq<VariantView>, show: bool, k: int) -> (Seq<Seq<char>>, nat)
    decreases k,
{
    if k <= 0 {
        (seq![], 0)
    } else {
        let (prev, alt) = variant_sections(vis, show, k - 1);
        let v = vis[k - 1];
        let flow = render_flow(v.flow);
        if flow.len() == 0 {
            (prev, alt)
        } else if show {
            let alt2 = if is_main(v) {
                alt
            } else {
                alt + 1
            };
            (prev.push("\\par\\medskip\n\\noindent\\textbf{"@ + branch_label(is_main(v), alt2) + "}\\par\n"@ + flow), alt2)
        } else if k - 1 == 0 {
            (prev.push(flow), alt)
        } else {
            (prev, alt)
        }
    }
}

pub open spec fn has_structured_flow(common: Seq<FlowBlock>, vs: Seq<VariantView>) -> bool {
    common.len() > 0 || exists|i: int| 0 <= i < vs.len() && #[trigger] vs[i].flow.len() > 0
}

/// The teaching flow: without any structured flow, the legacy explanations
/// (alternatives headed 【別解k】); otherwise the shared flow and the flow of
/// each variant, headed 【解法1】 / 【別解k】 when there is more than one part.
pub open spec fn teaching_flow(common: Seq<FlowBlock>, vs: Seq<VariantView>) -> Seq<char> {
    let ord = ordered(vs);
    if !has_structured_flow(common, vs) {
        join(legacy_sections(legacy_texts(ord)), "\n\n"@)
    } else {
        let c = render_flow(common);
        let head = if c.len() > 0 {
            seq![c]
        } else {
            seq![]
        };
        let vis = visible(ord);
        let show = vis.len() > 1 || common.len() > 0;
        join(head + variant_sections(vis, show, vis.len() as int).0, "\n\n"@)
    }
}

proof fn lemma_groups_len(vs: Seq<VariantView>)
    ensures
        mains(vs).len() + others(vs).len() == vs.len(),
    decreases vs.len(),
{
    if vs.len() > 0 {
        lemma_groups_len(vs.drop_last());
    }
}

/// Positions of the variants in display order.
fn order_of(variants: &[ProblemSolutionVariant]) -> (r: Vec<usize>)
    ensures
        r@.len() == ordered(variants_view(variants@)).len(),
        forall|j: int| 0 <= j < r@.len() ==> #[trigger] r@[j] < variants@.len()
            && variants@[r@[j] as int]@ == ordered(variants_view(variants@))[j],
{
    let ghost vs = variants_view(variants@);
    let mut r: Vec<usize> = Vec::new();
    let mut i: usize = 0;
    while i < variants.len()
        invariant
            i <= variants.len(),
            vs == variants_view(variants@),
            r@.len() == mains(vs.take(i as int)).len(),
            forall|j: int| 0 <= j < r@.len() ==> #[trigger] r@[j] < variants@.len()
                && variants@[r@[j] as int]@ == mains(vs.take(i as int))[j],
        decreases variants.len() - i,
    {
        assert(vs.take(i + 1).drop_last() =~= vs.take(i as int));
        assert(vs.take(i + 1).last() == variants@[i as int]@);
        let role = chars_of(variants[i].role.as_str());
        if is_str(&role, "main") {
            r.push(i);
        }
        i += 1;
    }
    assert(vs.take(variants@.len() as int) =~= vs);
    let ghost m = r@.len();
    let mut i: usize = 0;
    while i < variants.len()
        invariant
            i <= variants.len(),
            vs == variants_view(variants@),
            m == mains(vs).len(),
            r@.len() == m + others(vs.take(i as int)).len(),
            forall|j: int| 0 <= j < r@.len() ==> #[trigger] r@[j] < variants@.len()
                && variants@[r@[j] as int]@ == (mains(vs) + others(vs.take(i as int)))[j],
        decreases variants.len() - i,
    {
        assert(vs.take(i + 1).drop_last() =~= vs.take(i as int));
        assert(vs.take(i + 1).last() == variants@[i as int]@);
        let role = chars_of(variants[i].role.as_str());
        if !is_str(&role, "main") {
            let ghost prev = mains(vs) + others(vs.take(i as int));
            r.push(i);
            assert(mains(vs) + others(vs.take(i + 1)) =~= prev.push(variants@[i as int]@));
        } else {
            assert(mains(vs) + others(vs.take(i + 1)) =~= mains(vs) + others(vs.take(i as int)));
        }
        i += 1;
    }
    assert(vs.take(variants@.len() as int) =~= vs);
    r
}

/// The teaching flow of a problem.
#[verifier::rlimit(40)]
pub fn render_teaching_flow_latex(common_flow_blocks: &[SolutionFlowBlock], variants: &[ProblemSolutionVariant]) -> (r: String)
    ensures
        r@ == teaching_flow(flow_view(common_flow_blocks@), variants_view(variants@)),
{
    let ghost common = flow_view(common_flow_blocks@);
    let ghost vs = variants_view(variants@);
    let ghost ord = ordered(vs);
    let order = order_of(variants);
    // any structured flow?
    let mut any = common_flow_blocks.len() > 0;
    let mut i: usize = 0;
    while i < variants.len()
        invariant
            i <= variants.len(),
            vs == variants_view(variants@),
            common == flow_view(common_flow_blocks@),
            any == (common.len() > 0 || exists|j: int| 0 <= j < i && #[trigger] vs[j].flow.len() > 0),
        decreases variants.len() - i,
    {
        assert(vs[i as int] == variants@[i as int]@);
        if variants[i].flow_blocks.len() > 0 {
            assert(vs[i as int].flow.len() > 0);
            any = true;
        }
        i += 1;
    }
    let sep = chars_of("\n\n");
    if !any {
        // legacy explanations
        let mut texts: Vec<Vec<char>> = Vec::new();
        let mut j: usize = 0;
        while j < order.len()
            invariant
                j <= order@.len() == ord.len(),
                vs == variants_view(variants@),
                ord == ordered(vs),
                forall|t: int| 0 <= t < order@.len() ==> #[trigger] order@[t] < variants@.len()
                    && variants@[order@[t] as int]@ == ord[t],
                views(texts@) == legacy_texts(ord.take(j as int)),
            decreases order.len() - j,
        {
            let v = &variants[order[j]];
            assert(ord.take(j + 1).drop_last() =~= ord.take(j as int));
            assert(ord.take(j + 1).last() == v@);
            match &v.explanation {
                Some(e) => {
                    let ec = chars_of(e.as_str());
                    let et = trim_of(&ec);
                    if et.len() > 0 {
                        let ghost pv = views(texts@);
                        texts.push(et);
                        assert(views(texts@) =~= pv.push(trim(e@)));
                    }
                },
                None => {},
            }
            j += 1;
        }
        assert(ord.take(ord.len() as int) =~= ord);
        let ghost ts = legacy_texts(ord);
        let mut sections: Vec<Vec<char>> = Vec::new();
        let mut k: usize = 0;
        while k < texts.len()
            invariant
                k <= texts@.len(),
                views(texts@) == ts,
                views(sections@) == legacy_sections(ts).take(k as int),
            decreases texts.len() - k,
        {
            assert(views(texts@)[k as int] == texts@[k as int]@);
            let mut sec: Vec<char> = Vec::new();
            if k > 0 {
                push_str(&mut sec, "【別解");
                let d = decimal_of(k as u64);
                push_all(&mut sec, &d);
                push_str(&mut sec, "】\n");
            }
            push_all(&mut sec, &texts[k]);
            let ghost pv = views(sections@);
            sections.push(sec);
            assert(views(sections@) =~= pv.push(legacy_section(ts, k as int)));
            assert(legacy_sections(ts).take(k + 1) =~= legacy_sections(ts).take(k as int).push(legacy_section(ts, k as int)));
            k += 1;
        }
        assert(legacy_sections(ts).take(ts.len() as int) =~= legacy_sections(ts));
        let out = join_chars(&sections, &sep);
        return string_of(&out);
    }
    // structured flows
    let c = render_flow_chars(common_flow_blocks);
    // visible variants, as positions
    let mut vis: Vec<usize> = Vec::new();
    let mut j: usize = 0;
    while j < order.len()
        invariant
            j <= order@.len() == ord.len(),
            vs == variants_view(variants@),
            ord == ordered(vs),
            forall|t: int| 0 <= t < order@.len() ==> #[trigger] order@[t] < variants@.len()
                && variants@[order@[t] as int]@ == ord[t],
            vis@.len() == visible(ord.take(j as int)).len(),
            forall|t: int| 0 <= t < vis@.len() ==> #[trigger] vis@[t] < variants@.len()
                && variants@[vis@[t] as int]@ == visible(ord.take(j as int))[t],
        decreases order.len() - j,
    {
        assert(ord.take(j + 1).drop_last() =~= ord.take(j as int));
        assert(ord.take(j + 1).last() == variants@[order@[j as int] as int]@);
        if variants[order[j]].flow_blocks.len() > 0 {
            vis.push(order[j]);
        }
        j += 1;
    }
    assert(ord.take(ord.len() as int) =~= ord);
    let ghost visv = visible(ord);
    let show = vis.len() > 1 || common_flow_blocks.len() > 0;
    let mut vsecs: Vec<Vec<char>> = Vec::new();
    let mut alt: usize = 0;
    let mut k: usize = 0;
    while k < vis.len()
        invariant
            k <= vis@.len() == visv.len(),
            alt <= k,
            show == (visv.len() > 1 || common.len() > 0),
            common == flow_view(common_flow_blocks@),
            forall|t: int| 0 <= t < vis@.len() ==> #[trigger] vis@[t] < variants@.len()
                && variants@[vis@[t] as int]@ == visv[t],
            variant_sections(visv, show, k as int) == (views(vsecs@), alt as nat),
        decreases vis.len() - k,
    {
        let v = &variants[vis[k]];
        assert(v@ == visv[k as int]);
        let flow = render_flow_chars(v.flow_blocks.as_slice());
        let ghost prev = views(vsecs@);
        let ghost prev_alt = alt as nat;
        let ghost vv = visv[k as int];
        assert(flow@ == render_flow(vv.flow));
        assert(variant_sections(visv, show, k as int) == (prev, prev_alt));
        if flow.len() > 0 {
            if show {
                let role = chars_of(v.role.as_str());
                let mut sec: Vec<char> = Vec::new();
                push_str(&mut sec, "\\par\\medskip\n\\noindent\\textbf{");
                if is_str(&role, "main") {
                    push_str(&mut sec, "【解法1】");
                } else {
                    alt += 1;
                    push_str(&mut sec, "【別解");
                    let d = decimal_of(alt as u64);
                    push_all(&mut sec, &d);
                    push_str(&mut sec, "】");
                }
                push_str(&mut sec, "}\\par\n");
                push_all(&mut sec, &flow);
                let ghost sv = sec@;
                vsecs.push(sec);
                assert(views(vsecs@) =~= prev.push(sv));
                assert(sv == "\\par\\medskip\n\\noindent\\textbf{"@ + branch_label(is_main(vv), alt as nat) + "}\\par\n"@ + flow@);
            } else if k == 0 {
                let ghost fv = flow@;
                vsecs.push(flow);
                assert(views(vsecs@) =~= prev.push(fv));
            }
        }
        assert(variant_sections(visv, show, k + 1) == (views(vsecs@), alt as nat));
        k += 1;
    }
    let mut sections: Vec<Vec<char>> = Vec::new();
    if c.len() > 0 {
        sections.push(c);
    }
    let ghost head = views(sections@);
    sections.append(&mut vsecs);
    assert(views(sections@) =~= head + variant_sections(visv, show, visv.len() as int).0);
    assert(has_structured_flow(common, vs));
    assert(c@ == render_flow(common));
    assert(head == (if c@.len() > 0 { seq![c@] } else { seq![] }));
    assert(sep@ == "\n\n"@);
    let out = join_chars(&sections, &sep);
    assert(out@ == teaching_flow(common, vs));
    string_of(&out)
}

/// The pattern ids of a normalised shared flow.
pub open spec fn pattern_ids_of(bs: Seq<FlowBlock>) -> Set<i64> {
    Set::new(|id: i64| exists|i: int| 0 <= i < bs.len() && bs[i].pattern_id == Some(id))
}

/// Normalisation of the flows of the first `k` variants, each against the
/// patterns of the shared flow.
pub open spec fn normalize_variants(vs: Seq<VariantView>, ids: Set<i64>, k: int) -> Result<Seq<VariantView>, Seq<char>>
    decreases k,
{
    if k <= 0 {
        Ok(seq![])
    } else {
        match normalize_variants(vs, ids, k - 1) {
            Err(e) => Err(e),
            Ok(prev) => match normalized_flow(vs[k - 1].flow, ids) {
                Err(e) => Err(e),
                Ok(f) => Ok(prev.push(VariantView { flow: f, ..vs[k - 1] })),
            },
        }
    }
}

/// The saved flows normalised (variants against the shared flow's patterns)
/// and rendered as the teaching flow.
pub open spec fn solution_flow_latex(common: Seq<FlowBlock>, vs: Seq<VariantView>) -> Result<Seq<char>, Seq<char>> {
    match normalized_flow(common, Set::empty()) {
        Err(e) => Err(e),
        Ok(c) => match normalize_variants(vs, pattern_ids_of(c), vs.len() as int) {
            Err(e) => Err(e),
            Ok(nvs) => Ok(teaching_flow(c, nvs)),
        },
    }
}

pub proof fn lemma_variants_err_persists(vs: Seq<VariantView>, ids: Set<i64>, k: int, m: int)
    requires
        0 <= k <= m,
        normalize_variants(vs, ids, k) is Err,
    ensures
        normalize_variants(vs, ids, m) == normalize_variants(vs, ids, k),
    decreases m - k,
{
    if m > k {
        lemma_variants_err_persists(vs, ids, k, m - 1);
    }
}

/// Normalises the saved flows and renders the teaching flow.
pub fn render_solution_flow_latex(common_flow_blocks: Vec<SolutionFlowBlock>, solution_variants: Vec<ProblemSolutionVariant>) -> (r: Result<String, String>)
    ensures
        match solution_flow_latex(flow_view(common_flow_blocks@), variants_view(solution_variants@)) {
            Ok(s) => r is Ok && r->Ok_0@ == s,
            Err(e) => r is Err && r->Err_0@ == e,
        },
{
    let ghost vs = variants_view(solution_variants@);
    let empty: HashSet<i64> = HashSet::new();
    let common = normalize_saved_flow_blocks(common_flow_blocks, &empty)?;
    let ghost cv = flow_view(common@);
    let mut ids: HashSet<i64> = HashSet::new();
    let mut i: usize = 0;
    while i < common.len()
        invariant
            i <= common@.len(),
            cv == flow_view(common@),
            ids@ == Set::new(|id: i64| exists|j: int| 0 <= j < i && cv[j].pattern_id == Some(id)),
        decreases common.len() - i,
    {
        assert(cv[i as int] == common@[i as int]@);
        match common[i].pattern_id {
            Some(p) => {
                ids.insert(p);
            },
            None => {},
        }
        assert(ids@ =~= Set::new(|id: i64| exists|j: int| 0 <= j < i + 1 && cv[j].pattern_id == Some(id)));
        i += 1;
    }
    let ghost idv = pattern_ids_of(cv);
    assert(ids@ =~= idv);
    let len0 = solution_variants.len();
    let ghost n = len0 as int;
    let mut rest = solution_variants;
    let mut variants: Vec<ProblemSolutionVariant> = Vec::new();
    let mut k: usize = 0;
    assert(variants_view(variants@) =~= seq![]);
    while rest.len() > 0
        invariant
            k <= n,
            n <= usize::MAX,
            rest@.len() == n - k,
            vs.len() == n,
            vs == variants_view(solution_variants@),
            normalized_flow(flow_view(common_flow_blocks@), Set::<i64>::empty()) == Ok::<Seq<FlowBlock>, Seq<char>>(cv),
            cv == flow_view(common@),
            idv == pattern_ids_of(cv),
            ids@ == idv,
            forall|j: int| 0 <= j < rest@.len() ==> #[trigger] rest@[j]@ == vs[k + j],
            normalize_variants(vs, idv, k as int) == Ok::<Seq<VariantView>, Seq<char>>(variants_view(variants@)),
        decreases rest.len(),
    {
        let mut v = rest.remove(0);
        assert(v@ == vs[k as int]);
        proof {
            if normalize_variants(vs, idv, k + 1) is Err {
                lemma_variants_err_persists(vs, idv, k + 1, n);
            }
        }
        let mut flow: Vec<SolutionFlowBlock> = Vec::new();
        std::mem::swap(&mut flow, &mut v.flow_blocks);
        let normalized = normalize_saved_flow_blocks(flow, &ids)?;
        v.flow_blocks = normalized;
        let ghost pv = variants_view(variants@);
        variants.push(v);
        assert(variants_view(variants@) =~= pv.push(v@));
        k += 1;
    }
    Ok(render_teaching_flow_latex(common.as_slice(), variants.as_slice()))
}

} // verus!
