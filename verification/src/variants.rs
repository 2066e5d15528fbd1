//! The solution variants of a problem as they are saved: at most six, each with
//! an id of its own, a named and summarised strategy, at most one main
//! solution, bounded lists and a checked solution flow.
use vstd::prelude::*;
use std::collections::HashSet;
use crate::flow_normalize::{clipped_id, fresh_from, fresh_id_exec, lemma_fresh_is_new, normalize_saved_flow_blocks,
    normalized_flow, seen_contains};
use crate::models::{flow_view, opt_string_view, ExplanationSection, FlowBlock, ProblemSolutionVariant, SolutionBlock,
    SolutionPlan, SolutionStrategy, SolutionVerification, VerificationIssue};
use crate::text::{chars_of, decimal, decimal_of, is_str, push_all, slice_of, string_of, trim, trim_of, views};

verus! {

pub const TOO_MANY_VARIANTS: &'static str = "解法は最大6件まで保存できます";
pub const NEED_TITLE_AND_SUMMARY: &'static str = "解法名と概要を入力してください";
pub const TOO_LONG: &'static str = "解答または解説が長すぎます";
pub const BAD_VERIFICATION: &'static str = "解答検証結果の形式が不正です";

/// A strategy as values.
pub struct StrategyModel {
    pub id: Seq<char>,
    pub title: Seq<char>,
    pub summary: Seq<char>,
    pub difficulty: Option<Seq<char>>,
    pub answer_length: Option<Seq<char>>,
    pub concepts: Seq<Seq<char>>,
}

/// A solution variant as values, with everything that saving touches.
pub struct SavedVariant {
    pub id: Seq<char>,
    pub role: Seq<char>,
    pub strategy: StrategyModel,
    pub solution: Seq<char>,
    pub explanation: Option<Seq<char>>,
    pub plan: Option<(Seq<char>, Seq<Seq<char>>)>,
    pub verification: Option<Seq<(Seq<char>, Seq<char>)>>,
    pub solution_blocks: Seq<Seq<char>>,
    pub explanation_sections: Seq<Seq<char>>,
    pub flow: Seq<FlowBlock>,
}

pub open spec fn strs(v: Seq<String>) -> Seq<Seq<char>> {
    v.map_values(|s: String| s@)
}

pub open spec fn issues_view(v: Seq<VerificationIssue>) -> Seq<(Seq<char>, Seq<char>)> {
    v.map_values(|i: VerificationIssue| (i.severity@, i.message@))
}

pub open spec fn strategy_model(s: SolutionStrategy) -> StrategyModel {
    StrategyModel {
        id: s.id@,
        title: s.title@,
        summary: s.summary@,
        difficulty: opt_string_view(s.difficulty),
        answer_length: opt_string_view(s.answer_length),
        concepts: strs(s.concepts@),
    }
}

pub open spec fn saved_view(v: ProblemSolutionVariant) -> SavedVariant {
    SavedVariant {
        id: v.id@,
        role: v.role@,
        strategy: strategy_model(v.strategy),
        solution: v.solution@,
        explanation: opt_string_view(v.explanation),
        plan: match v.plan {
            Some(p) => Some((p.strategy_id@, strs(p.outline@))),
            None => None,
        },
        verification: match v.verification {
            Some(x) => Some(issues_view(x.issues@)),
            None => None,
        },
        solution_blocks: v.solution_blocks@.map_values(|b: SolutionBlock| b.content@),
        explanation_sections: v.explanation_sections@.map_values(|s: ExplanationSection| s.content@),
        flow: flow_view(v.flow_blocks@),
    }
}

pub open spec fn saved_views(vs: Seq<ProblemSolutionVariant>) -> Seq<SavedVariant> {
    vs.map_values(|v: ProblemSolutionVariant| saved_view(v))
}

// ---------------------------------------------------------------------------
// One variant
// ---------------------------------------------------------------------------

/// The trimmed text, cut to its first `n` characters.
pub open spec fn clip(s: Seq<char>, n: nat) -> Seq<char> {
    let t = trim(s);
    if t.len() > n { t.take(n as int) } else { t }
}

/// At most the first `n` entries.
pub open spec fn first_n<T>(s: Seq<T>, n: nat) -> Seq<T> {
    if s.len() > n { s.take(n as int) } else { s }
}

pub open spec fn known_difficulty(d: Option<Seq<char>>) -> Option<Seq<char>> {
    match d {
        Some(x) => if x == "basic"@ || x == "standard"@ || x == "advanced"@ { Some(x) } else { None },
        None => None,
    }
}

pub open spec fn known_answer_length(d: Option<Seq<char>>) -> Option<Seq<char>> {
    match d {
        Some(x) => if x == "short"@ || x == "medium"@ || x == "long"@ { Some(x) } else { None },
        None => None,
    }
}

/// The concepts that are not blank, each trimmed and cut to 80 characters.
pub open spec fn kept_concepts(cs: Seq<Seq<char>>) -> Seq<Seq<char>>
    decreases cs.len(),
{
    if cs.len() == 0 {
        seq![]
    } else {
        let c = clip(cs.last(), 80);
        kept_concepts(cs.drop_last()) + (if c.len() > 0 { seq![c] } else { seq![] })
    }
}

/// A finding is a warning or an error, and says something.
pub open spec fn issues_ok(issues: Seq<(Seq<char>, Seq<char>)>) -> bool {
    forall|i: int| 0 <= i < issues.len() ==> ((#[trigger] issues[i]).0 == "warning"@ || issues[i].0 == "error"@)
        && trim(issues[i].1).len() > 0
}

pub open spec fn explanation_len(e: Option<Seq<char>>) -> nat {
    match e {
        Some(x) => x.len(),
        None => 0,
    }
}

/// Variant `index` as saved, given the ids already taken and whether a main
/// solution was already seen; with whether it is the main solution.
pub open spec fn normalize_one(seen: Seq<Seq<char>>, main_seen: bool, v: SavedVariant, index: int, inherited: Set<i64>) -> Result<(SavedVariant, bool), Seq<char>> {
    let c = clipped_id(v.id);
    let id = if c.len() == 0 || seen.contains(c) {
        fresh_from("variant-"@ + decimal((index + 1) as nat), seen, 0)
    } else {
        c
    };
    let sid0 = clip(v.strategy.id, 100);
    let sid = if sid0.len() == 0 { "strategy-"@ + decimal((index + 1) as nat) } else { sid0 };
    let title = clip(v.strategy.title, 120);
    let summary = clip(v.strategy.summary, 1000);
    if title.len() == 0 || summary.len() == 0 {
        Err(NEED_TITLE_AND_SUMMARY@)
    } else if v.solution.len() > 200000 || explanation_len(v.explanation) > 200000 {
        Err(TOO_LONG@)
    } else {
        let is_main = v.role == "main"@ && !main_seen;
        let verification = match v.verification {
            Some(is) => Some(first_n(is, 100)),
            None => None,
        };
        if verification matches Some(is) && !issues_ok(is) {
            Err(BAD_VERIFICATION@)
        } else {
            match normalized_flow(v.flow, inherited) {
                Err(e) => Err(e),
                Ok(flow) => Ok((SavedVariant {
                    id,
                    role: if is_main { "main"@ } else { "alternative"@ },
                    strategy: StrategyModel {
                        id: sid,
                        title,
                        summary,
                        difficulty: known_difficulty(v.strategy.difficulty),
                        answer_length: known_answer_length(v.strategy.answer_length),
                        concepts: first_n(kept_concepts(v.strategy.concepts), 12),
                    },
                    solution: v.solution,
                    explanation: v.explanation,
                    plan: match v.plan {
                        Some(p) => Some((sid, first_n(p.1, 50))),
                        None => None,
                    },
                    verification,
                    solution_blocks: first_n(v.solution_blocks, 100),
                    explanation_sections: first_n(v.explanation_sections, 100),
                    flow,
                }, is_main)),
            }
        }
    }
}

/// What saving has taken and kept so far.
pub struct VariantsState {
    pub seen: Seq<Seq<char>>,
    pub main_seen: bool,
    pub out: Seq<SavedVariant>,
}

pub open spec fn variant_steps(vs: Seq<SavedVariant>, inherited: Set<i64>, k: int) -> Result<VariantsState, Seq<char>>
    decreases k,
{
    if k <= 0 {
        Ok(VariantsState { seen: seq![], main_seen: false, out: seq![] })
    } else {
        match variant_steps(vs, inherited, k - 1) {
            Err(e) => Err(e),
            Ok(st) => match normalize_one(st.seen, st.main_seen, vs[k - 1], k - 1, inherited) {
                Err(e) => Err(e),
                Ok((nv, is_main)) => Ok(VariantsState {
                    seen: st.seen.push(nv.id),
                    main_seen: st.main_seen || is_main,
                    out: st.out.push(nv),
                }),
            },
        }
    }
}

/// The variants as saved; where none claims to be the main one, the first is.
pub open spec fn normalized_variants(vs: Seq<SavedVariant>, inherited: Set<i64>) -> Result<Seq<SavedVariant>, Seq<char>> {
    if vs.len() > 6 {
        Err(TOO_MANY_VARIANTS@)
    } else {
        match variant_steps(vs, inherited, vs.len() as int) {
            Err(e) => Err(e),
            Ok(st) => Ok(
                if st.out.len() > 0 && !st.main_seen {
                    st.out.update(0, SavedVariant { role: "main"@, ..st.out[0] })
                } else {
                    st.out
                },
            ),
        }
    }
}

proof fn lemma_steps_err_persists(vs: Seq<SavedVariant>, inherited: Set<i64>, k: int, m: int)
    requires
        0 <= k <= m,
        variant_steps(vs, inherited, k) is Err,
    ensures
        variant_steps(vs, inherited, m) == variant_steps(vs, inherited, k),
    decreases m - k,
{
    if m > k {
        lemma_steps_err_persists(vs, inherited, k, m - 1);
    }
}

// ---------------------------------------------------------------------------
// Executable
// ---------------------------------------------------------------------------

fn clip_exec(s: &str, n: usize) -> (r: String)
    ensures
        r@ == clip(s@, n as nat),
{
    let t = trim_of(&chars_of(s));
    if t.len() > n {
        let c = slice_of(&t, 0, n);
        assert(c@ =~= t@.take(n as int));
        string_of(&c)
    } else {
        string_of(&t)
    }
}

fn known_difficulty_exec(d: Option<String>) -> (r: Option<String>)
    ensures
        opt_string_view(r) == known_difficulty(opt_string_view(d)),
{
    match d {
        Some(x) => {
            let v = chars_of(x.as_str());
            if is_str(&v, "basic") || is_str(&v, "standard") || is_str(&v, "advanced") {
                Some(x)
            } else {
                None
            }
        },
        None => None,
    }
}

fn known_answer_length_exec(d: Option<String>) -> (r: Option<String>)
    ensures
        opt_string_view(r) == known_answer_length(opt_string_view(d)),
{
    match d {
        Some(x) => {
            let v = chars_of(x.as_str());
            if is_str(&v, "short") || is_str(&v, "medium") || is_str(&v, "long") {
                Some(x)
            } else {
                None
            }
        },
        None => None,
    }
}

fn kept_concepts_exec(cs: &Vec<String>) -> (r: Vec<String>)
    ensures
        strs(r@) == first_n(kept_concepts(strs(cs@)), 12),
{
    let ghost cv = strs(cs@);
    let mut out: Vec<String> = Vec::new();
    let mut i: usize = 0;
    while i < cs.len()
        invariant
            i <= cs.len(),
            cv == strs(cs@),
            strs(out@) == kept_concepts(cv.take(i as int)),
        decreases cs.len() - i,
    {
        proof {
            assert(cv.take(i + 1).drop_last() =~= cv.take(i as int));
            assert(cv.take(i + 1).last() == cs@[i as int]@);
        }
        let c = clip_exec(cs[i].as_str(), 80);
        let ghost before = out@;
        if chars_of(c.as_str()).len() > 0 {
            out.push(c);
            assert(strs(out@) =~= strs(before) + seq![out@.last()@]);
        } else {
            assert(strs(out@) =~= strs(before) + Seq::<Seq<char>>::empty());
        }
        i += 1;
    }
    assert(cv.take(cs.len() as int) =~= cv);
    let ghost all = out@;
    out.truncate(12);
    proof {
        if all.len() > 12 {
            assert(strs(out@) =~= strs(all).take(12));
        } else {
            assert(out@ =~= all);
        }
    }
    out
}

fn issues_ok_exec(issues: &Vec<VerificationIssue>) -> (b: bool)
    ensures
        b == issues_ok(issues_view(issues@)),
{
    let ghost iv = issues_view(issues@);
    let mut i: usize = 0;
    while i < issues.len()
        invariant
            i <= issues.len(),
            iv == issues_view(issues@),
            forall|j: int| 0 <= j < i ==> ((#[trigger] iv[j]).0 == "warning"@ || iv[j].0 == "error"@)
                && trim(iv[j].1).len() > 0,
        decreases issues.len() - i,
    {
        let sev = chars_of(issues[i].severity.as_str());
        let msg = trim_of(&chars_of(issues[i].message.as_str()));
        assert(iv[i as int] == (issues@[i as int].severity@, issues@[i as int].message@));
        if !((is_str(&sev, "warning") || is_str(&sev, "error")) && msg.len() > 0) {
            return false;
        }
        i += 1;
    }
    true
}

fn variant_id(id: &str, index: usize, seen: &Vec<Vec<char>>) -> (r: Vec<char>)
    requires
        index < usize::MAX,
    ensures
        r@ == (if clipped_id(id@).len() == 0 || views(seen@).contains(clipped_id(id@)) {
            fresh_from("variant-"@ + decimal((index + 1) as nat), views(seen@), 0)
        } else {
            clipped_id(id@)
        }),
{
    let t = trim_of(&chars_of(id));
    let c = if t.len() > 100 {
        slice_of(&t, 0, 100)
    } else {
        t
    };
    proof {
        if t@.len() > 100 {
            assert(c@ =~= t@.take(100));
        }
    }
    if c.len() == 0 || seen_contains(seen, &c) {
        let mut base = chars_of("variant-");
        push_all(&mut base, &decimal_of((index + 1) as u64));
        fresh_id_exec(base, seen)
    } else {
        c
    }
}

fn numbered(prefix: &str, index: usize) -> (r: String)
    requires
        index < usize::MAX,
    ensures
        r@ == prefix@ + decimal((index + 1) as nat),
{
    let mut v = chars_of(prefix);
    push_all(&mut v, &decimal_of((index + 1) as u64));
    string_of(&v)
}

proof fn lemma_first_n_map<A, B>(s: Seq<A>, n: nat, f: spec_fn(A) -> B, t: Seq<A>)
    requires
        n <= s.len() ==> t == s.subrange(0, n as int),
        n > s.len() ==> t == s,
    ensures
        t.map_values(f) == first_n(s.map_values(f), n),
{
    if s.len() > n {
        assert(t.map_values(f) =~= s.map_values(f).take(n as int));
    } else if s.len() == n {
        assert(t =~= s);
    }
}

fn normalize_variant(
    v: ProblemSolutionVariant,
    index: usize,
    seen: &Vec<Vec<char>>,
    main_seen: bool,
    inherited: &HashSet<i64>,
) -> (r: Result<(ProblemSolutionVariant, bool), String>)
    requires
        index < usize::MAX,
    ensures
        match normalize_one(views(seen@), main_seen, saved_view(v), index as int, inherited@) {
            Ok((nv, m)) => r matches Ok((w, b)) && saved_view(w) == nv && b == m,
            Err(e) => r matches Err(x) && x@ == e,
        },
{
    let ghost sv = saved_view(v);
    let ProblemSolutionVariant {
        id,
        role,
        strategy,
        solution,
        explanation,
        plan,
        verification,
        solution_blocks,
        explanation_sections,
        flow_blocks,
    } = v;
    let new_id = variant_id(id.as_str(), index, seen);
    let SolutionStrategy { id: sid_raw, title, summary, difficulty, answer_length, concepts } = strategy;
    let sid0 = clip_exec(sid_raw.as_str(), 100);
    let sid = if chars_of(sid0.as_str()).len() == 0 { numbered("strategy-", index) } else { sid0 };
    let title = clip_exec(title.as_str(), 120);
    let summary = clip_exec(summary.as_str(), 1000);
    if chars_of(title.as_str()).len() == 0 || chars_of(summary.as_str()).len() == 0 {
        return Err(string_of(&chars_of(NEED_TITLE_AND_SUMMARY)));
    }
    let explanation_length = match &explanation {
        Some(x) => chars_of(x.as_str()).len(),
        None => 0,
    };
    if chars_of(solution.as_str()).len() > 200000 || explanation_length > 200000 {
        return Err(string_of(&chars_of(TOO_LONG)));
    }
    let is_main = is_str(&chars_of(role.as_str()), "main") && !main_seen;
    let verification = match verification {
        Some(x) => {
            let SolutionVerification { issues } = x;
            let mut issues = issues;
            let ghost all = issues@;
            issues.truncate(100);
            proof {
                lemma_first_n_map(all, 100, |i: VerificationIssue| (i.severity@, i.message@), issues@);
            }
            if !issues_ok_exec(&issues) {
                return Err(string_of(&chars_of(BAD_VERIFICATION)));
            }
            Some(SolutionVerification { issues })
        },
        None => None,
    };
    let flow = match normalize_saved_flow_blocks(flow_blocks, inherited) {
        Ok(f) => f,
        Err(e) => {
            return Err(e);
        },
    };
    let plan = match plan {
        Some(p) => {
            let SolutionPlan { strategy_id: _, outline } = p;
            let mut outline = outline;
            let ghost all = outline@;
            outline.truncate(50);
            proof {
                lemma_first_n_map(all, 50, |s: String| s@, outline@);
            }
            Some(SolutionPlan { strategy_id: sid.clone(), outline })
        },
        None => None,
    };
    let mut solution_blocks = solution_blocks;
    let ghost all_blocks = solution_blocks@;
    solution_blocks.truncate(100);
    proof {
        lemma_first_n_map(all_blocks, 100, |b: SolutionBlock| b.content@, solution_blocks@);
    }
    let mut explanation_sections = explanation_sections;
    let ghost all_sections = explanation_sections@;
    explanation_sections.truncate(100);
    proof {
        lemma_first_n_map(all_sections, 100, |s: ExplanationSection| s.content@, explanation_sections@);
    }
    let new_role = if is_main { string_of(&chars_of("main")) } else { string_of(&chars_of("alternative")) };
    let out = ProblemSolutionVariant {
        id: string_of(&new_id),
        role: new_role,
        strategy: SolutionStrategy {
            id: sid,
            title,
            summary,
            difficulty: known_difficulty_exec(difficulty),
            answer_length: known_answer_length_exec(answer_length),
            concepts: kept_concepts_exec(&concepts),
        },
        solution,
        explanation,
        plan,
        verification,
        solution_blocks,
        explanation_sections,
        flow_blocks: flow,
    };
    proof {
        let nv = saved_view(out);
        assert(nv.strategy == normalize_one(views(seen@), main_seen, sv, index as int, inherited@)->Ok_0.0.strategy);
        assert(nv == normalize_one(views(seen@), main_seen, sv, index as int, inherited@)->Ok_0.0);
    }
    Ok((out, is_main))
}

/// Checks and normalises the solution variants of a problem before it is saved.
pub fn normalize_solution_variants(variants: Vec<ProblemSolutionVariant>, common_pattern_ids: &HashSet<i64>) -> (r: Result<Vec<ProblemSolutionVariant>, String>)
    ensures
        match normalized_variants(saved_views(variants@), common_pattern_ids@) {
            Ok(out) => r matches Ok(w) && saved_views(w@) == out,
            Err(e) => r matches Err(x) && x@ == e,
        },
{
    let ghost vs = saved_views(variants@);
    let ghost inh = common_pattern_ids@;
    if variants.len() > 6 {
        return Err(string_of(&chars_of(TOO_MANY_VARIANTS)));
    }
    let n = variants.len();
    let mut rest = variants;
    let mut seen: Vec<Vec<char>> = Vec::new();
    let mut main_seen = false;
    let mut out: Vec<ProblemSolutionVariant> = Vec::new();
    let mut k: usize = 0;
    assert(rest@.skip(0) =~= rest@);
    assert(views(seen@) =~= Seq::<Seq<char>>::empty());
    assert(saved_views(out@) =~= Seq::<SavedVariant>::empty());
    while k < n
        invariant
            n <= 6,
            k <= n,
            vs == saved_views(variants@),
            vs.len() == n,
            inh == common_pattern_ids@,
            rest@.len() == n - k,
            saved_views(rest@) == vs.skip(k as int),
            variant_steps(vs, inh, k as int) == Ok::<VariantsState, Seq<char>>(VariantsState {
                seen: views(seen@),
                main_seen,
                out: saved_views(out@),
            }),
        decreases n - k,
    {
        let ghost pre_rest = rest@;
        let v = rest.remove(0);
        proof {
            assert(saved_view(v) == vs[k as int]) by {
                assert(saved_views(pre_rest)[0] == vs.skip(k as int)[0]);
            }
            assert(saved_views(rest@) =~= vs.skip(k + 1)) by {
                assert forall|j: int| 0 <= j < rest@.len() implies #[trigger] saved_views(rest@)[j] == vs.skip(k + 1)[j] by {
                    assert(rest@[j] == pre_rest[j + 1]);
                    assert(saved_views(pre_rest)[j + 1] == vs.skip(k as int)[j + 1]);
                }
            }
        }
        match normalize_variant(v, k, &seen, main_seen, common_pattern_ids) {
            Err(e) => {
                proof {
                    assert(variant_steps(vs, inh, k + 1) == Err::<VariantsState, Seq<char>>(e@));
                    lemma_steps_err_persists(vs, inh, k + 1, n as int);
                }
                return Err(e);
            },
            Ok((nv, is_main)) => {
                let ghost before_seen = seen@;
                let ghost before_out = out@;
                seen.push(chars_of(nv.id.as_str()));
                main_seen = main_seen || is_main;
                out.push(nv);
                proof {
                    assert(views(seen@) =~= views(before_seen).push(saved_view(out@.last()).id));
                    assert(saved_views(out@) =~= saved_views(before_out).push(saved_view(out@.last())));
                }
            },
        }
        k += 1;
    }
    assert(vs.len() as int == n as int);
    if out.len() > 0 && !main_seen {
        let first = out.remove(0);
        let ProblemSolutionVariant {
            id,
            role: _,
            strategy,
            solution,
            explanation,
            plan,
            verification,
            solution_blocks,
            explanation_sections,
            flow_blocks,
        } = first;
        let ghost tail = out@;
        out.insert(0, ProblemSolutionVariant {
            id,
            role: string_of(&chars_of("main")),
            strategy,
            solution,
            explanation,
            plan,
            verification,
            solution_blocks,
            explanation_sections,
            flow_blocks,
        });
        proof {
            let st = variant_steps(vs, inh, n as int)->Ok_0;
            assert(saved_views(out@) =~= st.out.update(0, SavedVariant { role: "main"@, ..st.out[0] })) by {
                assert forall|j: int| 0 < j < out@.len() implies #[trigger] out@[j] == tail[j - 1] by {}
            }
        }
    }
    Ok(out)
}

/// Law: the variants as saved have ids that differ from one another.
pub proof fn lemma_saved_ids_distinct(vs: Seq<SavedVariant>, inherited: Set<i64>, k: int)
    requires
        0 <= k <= vs.len(),
        variant_steps(vs, inherited, k) is Ok,
    ensures
        ({
            let st = variant_steps(vs, inherited, k)->Ok_0;
            &&& st.out.len() == k
            &&& st.seen.len() == st.out.len()
            &&& forall|i: int| 0 <= i < st.out.len() ==> #[trigger] st.seen[i] == st.out[i].id
            &&& forall|i: int, j: int| 0 <= i < j < st.out.len() ==> st.out[i].id != st.out[j].id
        }),
    decreases k,
{
    if k > 0 {
        lemma_steps_err_persists_contra(vs, inherited, k);
        lemma_saved_ids_distinct(vs, inherited, k - 1);
        let prev = variant_steps(vs, inherited, k - 1)->Ok_0;
        let one = normalize_one(prev.seen, prev.main_seen, vs[k - 1], k - 1, inherited);
        let nv = one->Ok_0.0;
        let c = clipped_id(vs[k - 1].id);
        if c.len() == 0 || prev.seen.contains(c) {
            lemma_fresh_is_new("variant-"@ + decimal(k as nat), prev.seen, 0);
        }
        assert(!prev.seen.contains(nv.id));
        let st = variant_steps(vs, inherited, k)->Ok_0;
        assert forall|i: int, j: int| 0 <= i < j < st.out.len() implies st.out[i].id != st.out[j].id by {
            if j == st.out.len() - 1 {
                assert(st.out[i].id == prev.seen[i]);
                assert(prev.seen[i] != nv.id);
            } else {
                assert(st.out[i] == prev.out[i] && st.out[j] == prev.out[j]);
            }
        }
        assert forall|i: int| 0 <= i < st.out.len() implies #[trigger] st.seen[i] == st.out[i].id by {
            if i < prev.out.len() {
                assert(st.seen[i] == prev.seen[i]);
            }
        }
    }
}

proof fn lemma_steps_err_persists_contra(vs: Seq<SavedVariant>, inherited: Set<i64>, k: int)
    requires
        0 < k,
        variant_steps(vs, inherited, k) is Ok,
    ensures
        variant_steps(vs, inherited, k - 1) is Ok,
        normalize_one(variant_steps(vs, inherited, k - 1)->Ok_0.seen, variant_steps(vs, inherited, k - 1)->Ok_0.main_seen,
            vs[k - 1], k - 1, inherited) is Ok,
{
}

/// Law: what is saved has at most one main solution.
pub proof fn lemma_at_most_one_main(vs: Seq<SavedVariant>, inherited: Set<i64>, k: int)
    requires
        0 <= k <= vs.len(),
        variant_steps(vs, inherited, k) is Ok,
    ensures
        ({
            let st = variant_steps(vs, inherited, k)->Ok_0;
            &&& forall|i: int| 0 <= i < st.out.len() ==> (#[trigger] st.out[i]).role == "main"@ || st.out[i].role == "alternative"@
            &&& forall|i: int, j: int| 0 <= i < j < st.out.len() && st.out[i].role == "main"@ ==> st.out[j].role != "main"@
            &&& !st.main_seen ==> forall|i: int| 0 <= i < st.out.len() ==> (#[trigger] st.out[i]).role != "main"@
            &&& st.main_seen ==> exists|i: int| 0 <= i < st.out.len() && (#[trigger] st.out[i]).role == "main"@
        }),
    decreases k,
{
    reveal_strlit("main");
    reveal_strlit("alternative");
    assert("main"@ != "alternative"@) by {
        assert("main"@.len() != "alternative"@.len());
    }
    if k > 0 {
        lemma_steps_err_persists_contra(vs, inherited, k);
        lemma_at_most_one_main(vs, inherited, k - 1);
        let prev = variant_steps(vs, inherited, k - 1)->Ok_0;
        let one = normalize_one(prev.seen, prev.main_seen, vs[k - 1], k - 1, inherited);
        let nv = one->Ok_0.0;
        let is_main = one->Ok_0.1;
        let st = variant_steps(vs, inherited, k)->Ok_0;
        assert(st.out == prev.out.push(nv));
        assert(st.main_seen == (prev.main_seen || is_main));
        assert(is_main == (vs[k - 1].role == "main"@ && !prev.main_seen));
        assert(nv.role == (if is_main { "main"@ } else { "alternative"@ }));
        assert forall|i: int| 0 <= i < prev.out.len() implies #[trigger] st.out[i] == prev.out[i] by {}
        assert(st.out[st.out.len() - 1] == nv);
        assert forall|i: int| 0 <= i < st.out.len() implies (#[trigger] st.out[i]).role == "main"@ || st.out[i].role == "alternative"@ by {
            if i < prev.out.len() {
                assert(st.out[i] == prev.out[i]);
            }
        }
        assert forall|i: int, j: int| 0 <= i < j < st.out.len() && st.out[i].role == "main"@ implies st.out[j].role != "main"@ by {
            assert(st.out[i] == prev.out[i]);
            if j < prev.out.len() {
                assert(st.out[j] == prev.out[j]);
            } else {
                assert(prev.main_seen);
            }
        }
        if !st.main_seen {
            assert forall|i: int| 0 <= i < st.out.len() implies (#[trigger] st.out[i]).role != "main"@ by {
                if i < prev.out.len() {
                    assert(st.out[i] == prev.out[i]);
                }
            }
        }
        if prev.main_seen {
            let w = choose|i: int| 0 <= i < prev.out.len() && (#[trigger] prev.out[i]).role == "main"@;
            assert(st.out[w].role == "main"@);
        } else if is_main {
            assert(st.out[st.out.len() - 1].role == "main"@);
        }
    }
}

/// Law: the variants as saved are as many as those sent, their ids differ from
/// one another, each is the main solution or an alternative, and exactly one is
/// the main solution when there are any.
pub proof fn lemma_saved_variants_well_formed(vs: Seq<SavedVariant>, inherited: Set<i64>)
    requires
        normalized_variants(vs, inherited) is Ok,
    ensures
        ({
            let out = normalized_variants(vs, inherited)->Ok_0;
            &&& out.len() == vs.len()
            &&& forall|i: int, j: int| 0 <= i < j < out.len() ==> out[i].id != out[j].id
            &&& forall|i: int| 0 <= i < out.len() ==> (#[trigger] out[i]).role == "main"@ || out[i].role == "alternative"@
            &&& out.len() > 0 ==> exists|i: int| 0 <= i < out.len() && (#[trigger] out[i]).role == "main"@
            &&& forall|i: int, j: int| 0 <= i < j < out.len() && out[i].role == "main"@ ==> out[j].role != "main"@
        }),
{
    reveal_strlit("main");
    reveal_strlit("alternative");
    assert("main"@ != "alternative"@) by {
        assert("main"@.len() != "alternative"@.len());
    }
    let n = vs.len() as int;
    lemma_saved_ids_distinct(vs, inherited, n);
    lemma_at_most_one_main(vs, inherited, n);
    let st = variant_steps(vs, inherited, n)->Ok_0;
    let out = normalized_variants(vs, inherited)->Ok_0;
    if st.out.len() > 0 && !st.main_seen {
        assert(out == st.out.update(0, SavedVariant { role: "main"@, ..st.out[0] }));
        assert forall|i: int| 0 < i < out.len() implies #[trigger] out[i] == st.out[i] by {}
        assert forall|i: int, j: int| 0 <= i < j < out.len() implies out[i].id != out[j].id by {
            assert(out[j] == st.out[j]);
            assert(out[i].id == st.out[i].id);
        }
        assert forall|i: int| 0 <= i < out.len() implies (#[trigger] out[i]).role == "main"@ || out[i].role == "alternative"@ by {
            if i > 0 {
                assert(out[i] == st.out[i]);
            }
        }
        assert(out[0].role == "main"@);
        assert forall|i: int, j: int| 0 <= i < j < out.len() && out[i].role == "main"@ implies out[j].role != "main"@ by {
            assert(out[j] == st.out[j]);
        }
    } else {
        assert(out == st.out);
    }
}


proof fn lemma_steps_keep_difficulty(vs: Seq<SavedVariant>, inherited: Set<i64>, k: int)
    requires
        0 <= k <= vs.len(),
        variant_steps(vs, inherited, k) is Ok,
    ensures
        variant_steps(vs, inherited, k)->Ok_0.out.len() == k,
        forall|i: int| 0 <= i < k ==> (#[trigger] variant_steps(vs, inherited, k)->Ok_0.out[i]).strategy.difficulty
            == known_difficulty(vs[i].strategy.difficulty),
    decreases k,
{
    if k > 0 {
        lemma_steps_err_persists_contra(vs, inherited, k);
        lemma_steps_keep_difficulty(vs, inherited, k - 1);
        let prev = variant_steps(vs, inherited, k - 1)->Ok_0;
        let st = variant_steps(vs, inherited, k)->Ok_0;
        assert forall|i: int| 0 <= i < k implies (#[trigger] st.out[i]).strategy.difficulty
            == known_difficulty(vs[i].strategy.difficulty) by {
            if i < k - 1 {
                assert(st.out[i] == prev.out[i]);
            }
        }
    }
}

/// Law: saving keeps a variant's difficulty exactly when it is one of the
/// three known ones, `basic`, `standard` and `advanced`, and drops any other;
/// the i-th saved variant is the i-th one sent.
pub proof fn lemma_known_difficulties_survive_saving(vs: Seq<SavedVariant>, inherited: Set<i64>)
    requires
        normalized_variants(vs, inherited) is Ok,
    ensures
        ({
            let out = normalized_variants(vs, inherited)->Ok_0;
            &&& out.len() == vs.len()
            &&& forall|i: int| 0 <= i < vs.len() ==> match vs[i].strategy.difficulty {
                Some(d) => if d == "basic"@ || d == "standard"@ || d == "advanced"@ {
                    (#[trigger] out[i]).strategy.difficulty == Some(d)
                } else {
                    out[i].strategy.difficulty is None
                },
                None => out[i].strategy.difficulty is None,
            }
        }),
{
    let n = vs.len() as int;
    lemma_steps_keep_difficulty(vs, inherited, n);
    let st = variant_steps(vs, inherited, n)->Ok_0;
    let out = normalized_variants(vs, inherited)->Ok_0;
    assert forall|i: int| 0 <= i < vs.len() implies out[i].strategy.difficulty == st.out[i].strategy.difficulty by {
        if st.out.len() > 0 && !st.main_seen && i == 0 {
        }
    }
}

} // verus!
