//! Rendering structured solution flows as LaTeX.
use vstd::prelude::*;
use crate::models::{
    flow_view, plain_block, FlowBlock, PatternStrategyInput, SnapshotView, SolutionFlowBlock,
};
use crate::pattern_card::{card_chars, non_empty_lines, pattern_card};
use crate::text::{
    chars_of, contains, contains_str, ends_with_str, has_prefix, has_suffix, is_ws, is_whitespace,
    is_str, join, join_chars, push_all, push_str, slice_of, split_chars, split_on,
    starts_with_str, string_of, trim, trim_end_of, trim_of, trim_start, trim_start_of, views,
};
use crate::flow_headings::strip_suffix_all;

verus! {

// ---------------------------------------------------------------------------
// Formulas
// ---------------------------------------------------------------------------

/// `s` with prefix `pre` and suffix `suf` (not overlapping) removed.
pub open spec fn strip_both(s: Seq<char>, pre: Seq<char>, suf: Seq<char>) -> Option<Seq<char>> {
    if has_prefix(s, pre) && has_suffix(s.skip(pre.len() as int), suf) {
        Some(s.subrange(pre.len() as int, s.len() - suf.len()))
    } else {
        None
    }
}

/// Formulas that open one of these environments already set their own display.
pub open spec fn is_standalone_environment(t: Seq<char>) -> bool {
    ||| has_prefix(t, "\\begin{align}"@)
    ||| has_prefix(t, "\\begin{align*}"@)
    ||| has_prefix(t, "\\begin{alignat}"@)
    ||| has_prefix(t, "\\begin{alignat*}"@)
    ||| has_prefix(t, "\\begin{equation}"@)
    ||| has_prefix(t, "\\begin{equation*}"@)
    ||| has_prefix(t, "\\begin{flalign}"@)
    ||| has_prefix(t, "\\begin{flalign*}"@)
    ||| has_prefix(t, "\\begin{gather}"@)
    ||| has_prefix(t, "\\begin{gather*}"@)
    ||| has_prefix(t, "\\begin{multline}"@)
    ||| has_prefix(t, "\\begin{multline*}"@)
    ||| has_prefix(t, "\\begin{displaymath}"@)
}

/// Number of characters that are not whitespace.
pub open spec fn non_ws_count(s: Seq<char>) -> nat
    decreases s.len(),
{
    if s.len() == 0 {
        0
    } else {
        non_ws_count(s.drop_last()) + if is_ws(s.last()) {
            0nat
        } else {
            1nat
        }
    }
}

/// A `\qquad`-separated condition with surrounding space and trailing commas removed.
pub open spec fn clean_part(p: Seq<char>) -> Seq<char> {
    trim(strip_suffix_all(trim(p), ","@))
}

pub open spec fn clean_parts(ps: Seq<Seq<char>>) -> Seq<Seq<char>> {
    ps.map_values(|p: Seq<char>| clean_part(p))
}

/// A plain formula whose `\qquad`-separated conditions are stacked in a
/// `gathered` environment when there are at least three of them, or two that
/// are wide (more than 80 visible characters).
pub open spec fn compact_formula(latex: Seq<char>) -> Seq<char> {
    let t = trim(latex);
    if contains(t, "\\begin{"@) || contains(t, "\\\\"@) {
        t
    } else {
        let parts = non_empty_lines(clean_parts(split_on(t, "\\qquad"@)));
        let wide = non_ws_count(t) > 80;
        if parts.len() < 2 || (parts.len() == 2 && !wide) {
            t
        } else {
            "\\begin{gathered}\n"@ + join(parts, "\\\\\n"@) + "\n\\end{gathered}"@
        }
    }
}

pub open spec fn display_inner(latex: Seq<char>) -> Seq<char> {
    "\\[\n"@ + compact_formula(latex) + "\n\\]\n"@
}

/// A formula block as display math: existing delimiters are replaced, never nested.
pub open spec fn display_formula_spec(latex: Seq<char>) -> Seq<char> {
    let t = trim(latex);
    if is_standalone_environment(t) {
        t + "\n"@
    } else if strip_both(t, "\\["@, "\\]"@) is Some {
        display_inner(strip_both(t, "\\["@, "\\]"@)->0)
    } else if strip_both(t, "$$"@, "$$"@) is Some {
        display_inner(strip_both(t, "$$"@, "$$"@)->0)
    } else if strip_both(t, "\\("@, "\\)"@) is Some {
        display_inner(strip_both(t, "\\("@, "\\)"@)->0)
    } else if !has_prefix(t, "$$"@) && strip_both(t, "$"@, "$"@) is Some {
        display_inner(strip_both(t, "$"@, "$"@)->0)
    } else {
        display_inner(t)
    }
}

fn strip_both_chars(s: &Vec<char>, pre: &str, suf: &str) -> (r: Option<Vec<char>>)
    ensures
        match strip_both(s@, pre@, suf@) {
            Some(x) => r is Some && r->0@ == x,
            None => r is None,
        },
{
    let p = chars_of(pre);
    let q = chars_of(suf);
    if !crate::text::starts_with(s, &p) {
        return None;
    }
    let rest = slice_of(s, p.len(), s.len());
    assert(rest@ =~= s@.skip(p@.len() as int));
    if !crate::text::ends_with(&rest, &q) {
        return None;
    }
    let inner = slice_of(s, p.len(), s.len() - q.len());
    Some(inner)
}

fn non_ws_count_of(s: &Vec<char>) -> (n: usize)
    ensures
        n == non_ws_count(s@),
{
    let mut n: usize = 0;
    let mut i: usize = 0;
    while i < s.len()
        invariant
            i <= s.len(),
            n <= i,
            n == non_ws_count(s@.take(i as int)),
        decreases s.len() - i,
    {
        assert(s@.take(i + 1).drop_last() =~= s@.take(i as int));
        if !is_whitespace(s[i]) {
            n += 1;
        }
        i += 1;
    }
    assert(s@.take(s@.len() as int) =~= s@);
    n
}

fn clean_part_chars(p: &Vec<char>) -> (r: Vec<char>)
    ensures
        r@ == clean_part(p@),
{
    let t = trim_of(p);
    let mut k: usize = t.len();
    assert(t@.take(k as int) =~= t@);
    proof {
        reveal_strlit(",");
        assert(","@ =~= seq![',']);
    }
    while k > 0 && t[k - 1] == ','
        invariant
            k <= t.len(),
            ","@ == seq![','],
            strip_suffix_all(t@, ","@) == strip_suffix_all(t@.take(k as int), ","@),
        decreases k,
    {
        let ghost u = t@.take(k as int);
        assert(has_suffix(u, ","@)) by {
            assert(u.skip(u.len() - 1) =~= seq![',']);
        }
        assert(u.take(u.len() - 1) =~= t@.take(k - 1));
        k -= 1;
    }
    let u = slice_of(&t, 0, k);
    proof {
        let w = t@.take(k as int);
        assert(u@ =~= w);
        assert(","@ =~= seq![',']);
        if has_suffix(w, ","@) {
            assert(w.skip(w.len() - 1)[0] == w[k - 1]);
        }
    }
    trim_of(&u)
}

pub fn compact_formula_chars(latex: &Vec<char>) -> (r: Vec<char>)
    ensures
        r@ == compact_formula(latex@),
{
    let t = trim_of(latex);
    if contains_str(&t, "\\begin{") || contains_str(&t, "\\\\") {
        return t;
    }
    let sep = chars_of("\\qquad");
    proof {
        reveal_strlit("\\qquad");
    }
    let pieces = split_chars(&t, &sep);
    let ghost sp = split_on(t@, "\\qquad"@);
    let mut parts: Vec<Vec<char>> = Vec::new();
    let mut i: usize = 0;
    while i < pieces.len()
        invariant
            i <= pieces.len(),
            pieces@.len() == sp.len(),
            forall|j: int| 0 <= j < pieces@.len() ==> #[trigger] pieces@[j]@ == sp[j],
            views(parts@) == non_empty_lines(clean_parts(sp).take(i as int)),
        decreases pieces.len() - i,
    {
        let c = clean_part_chars(&pieces[i]);
        proof {
            assert(clean_parts(sp).take(i + 1).drop_last() =~= clean_parts(sp).take(i as int));
            assert(clean_parts(sp).take(i + 1).last() == c@);
        }
        if c.len() > 0 {
            let ghost pv = views(parts@);
            parts.push(c);
            assert(views(parts@) =~= pv.push(c@));
        }
        i += 1;
    }
    assert(clean_parts(sp).take(pieces@.len() as int) =~= clean_parts(sp));
    let wide = non_ws_count_of(&t) > 80;
    if parts.len() < 2 || (parts.len() == 2 && !wide) {
        return t;
    }
    let joiner = chars_of("\\\\\n");
    let body = join_chars(&parts, &joiner);
    let mut out: Vec<char> = Vec::new();
    push_str(&mut out, "\\begin{gathered}\n");
    push_all(&mut out, &body);
    push_str(&mut out, "\n\\end{gathered}");
    out
}

fn display_inner_chars(latex: &Vec<char>) -> (r: Vec<char>)
    ensures
        r@ == display_inner(latex@),
{
    let c = compact_formula_chars(latex);
    let mut out: Vec<char> = Vec::new();
    push_str(&mut out, "\\[\n");
    push_all(&mut out, &c);
    push_str(&mut out, "\n\\]\n");
    out
}

fn is_standalone_environment_chars(t: &Vec<char>) -> (b: bool)
    ensures
        b == is_standalone_environment(t@),
{
    starts_with_str(t, "\\begin{align}") || starts_with_str(t, "\\begin{align*}")
        || starts_with_str(t, "\\begin{alignat}") || starts_with_str(t, "\\begin{alignat*}")
        || starts_with_str(t, "\\begin{equation}") || starts_with_str(t, "\\begin{equation*}")
        || starts_with_str(t, "\\begin{flalign}") || starts_with_str(t, "\\begin{flalign*}")
        || starts_with_str(t, "\\begin{gather}") || starts_with_str(t, "\\begin{gather*}")
        || starts_with_str(t, "\\begin{multline}") || starts_with_str(t, "\\begin{multline*}")
        || starts_with_str(t, "\\begin{displaymath}")
}

pub fn display_formula_chars(latex: &Vec<char>) -> (r: Vec<char>)
    ensures
        r@ == display_formula_spec(latex@),
{
    let t = trim_of(latex);
    if is_standalone_environment_chars(&t) {
        let mut out = slice_of(&t, 0, t.len());
        assert(out@ =~= t@);
        push_str(&mut out, "\n");
        return out;
    }
    match strip_both_chars(&t, "\\[", "\\]") {
        Some(inner) => return display_inner_chars(&inner),
        None => {},
    }
    match strip_both_chars(&t, "$$", "$$") {
        Some(inner) => return display_inner_chars(&inner),
        None => {},
    }
    match strip_both_chars(&t, "\\(", "\\)") {
        Some(inner) => return display_inner_chars(&inner),
        None => {},
    }
    if !starts_with_str(&t, "$$") {
        match strip_both_chars(&t, "$", "$") {
            Some(inner) => return display_inner_chars(&inner),
            None => {},
        }
    }
    display_inner_chars(&t)
}

/// A formula as display math.
pub fn display_formula(latex: &str) -> (r: String)
    ensures
        r@ == display_formula_spec(latex@),
{
    let v = chars_of(latex);
    let r = display_formula_chars(&v);
    string_of(&r)
}

/// A plain formula with long `\qquad` condition lists stacked.
pub fn compact_plain_formula_for_columns(latex: &str) -> (r: String)
    ensures
        r@ == compact_formula(latex@),
{
    let v = chars_of(latex);
    let r = compact_formula_chars(&v);
    string_of(&r)
}

/// A formula set between `\[` and `\]`.
pub fn display_formula_inner(latex: &str) -> (r: String)
    ensures
        r@ == display_inner(latex@),
{
    let v = chars_of(latex);
    let r = display_inner_chars(&v);
    string_of(&r)
}

// ---------------------------------------------------------------------------
// Blocks
// ---------------------------------------------------------------------------

/// The LaTeX of one block; `next_is_formula` says whether a formula block follows.
pub open spec fn block_piece(b: FlowBlock, next_is_formula: bool) -> Seq<char> {
    if b.block_type == "text"@ {
        trim(b.content) + if next_is_formula {
            "\n"@
        } else {
            "\n\\par\n"@
        }
    } else if b.block_type == "formula"@ {
        display_formula_spec(b.latex)
    } else if b.block_type == "heading"@ {
        "\\par\\smallskip\n\\noindent\\textbf{"@ + trim(b.text) + "}\\par\n"@
    } else if b.block_type == "caution"@ {
        "\\par\\smallskip\n\\noindent\\textbf{【注意】} "@ + trim(b.content) + "\\par\n"@
    } else if b.block_type == "pattern"@ {
        match b.snapshot {
            Some(s) => pattern_card(s) + "\n"@,
            None => seq![],
        }
    } else {
        seq![]
    }
}

pub open spec fn next_is_formula(bs: Seq<FlowBlock>, i: int) -> bool {
    i + 1 < bs.len() && bs[i + 1].block_type == "formula"@
}

/// The pieces of the first `k` blocks, concatenated.
pub open spec fn flow_pieces(bs: Seq<FlowBlock>, k: int) -> Seq<char>
    decreases k,
{
    if k <= 0 {
        seq![]
    } else {
        flow_pieces(bs, k - 1) + block_piece(bs[k - 1], next_is_formula(bs, k - 1))
    }
}

pub open spec fn flow_spacing() -> Seq<char> {
    "{\\setlength{\\abovedisplayskip}{0.4em}%\n\\setlength{\\belowdisplayskip}{0.4em}%\n\\setlength{\\abovedisplayshortskip}{0.25em}%\n\\setlength{\\belowdisplayshortskip}{0.25em}%\n"@
}

/// A whole flow: empty when nothing is rendered, otherwise wrapped in a group
/// with equal display-math spacing above and below.
pub open spec fn render_flow(bs: Seq<FlowBlock>) -> Seq<char> {
    let r = trim(flow_pieces(bs, bs.len() as int));
    if r.len() == 0 {
        seq![]
    } else {
        flow_spacing() + r + "\n}"@
    }
}

/// The block types are five different words.
pub proof fn lemma_block_types_distinct()
    ensures
        "text"@ != "caution"@,
        "text"@ != "formula"@,
        "text"@ != "heading"@,
        "text"@ != "pattern"@,
        "caution"@ != "formula"@,
        "caution"@ != "heading"@,
        "caution"@ != "pattern"@,
        "formula"@ != "heading"@,
        "formula"@ != "pattern"@,
        "heading"@ != "pattern"@,
{
    reveal_strlit("text");
    reveal_strlit("caution");
    reveal_strlit("formula");
    reveal_strlit("heading");
    reveal_strlit("pattern");
    assert("text"@[0] == 't');
    assert("caution"@[0] == 'c');
    assert("formula"@[0] == 'f');
    assert("heading"@[0] == 'h');
    assert("pattern"@[0] == 'p');
}

pub fn block_is(b: &SolutionFlowBlock, lit: &str) -> (r: bool)
    ensures
        r == (b@.block_type == lit@),
{
    let t = chars_of(b.block_type.as_str());
    is_str(&t, lit)
}

fn block_piece_chars(b: &SolutionFlowBlock, next_formula: bool) -> (r: Vec<char>)
    ensures
        r@ == block_piece(b@, next_formula),
{
    let mut out: Vec<char> = Vec::new();
    if block_is(b, "text") {
        let c = chars_of(b.content.as_str());
        let t = trim_of(&c);
        push_all(&mut out, &t);
        if next_formula {
            push_str(&mut out, "\n");
        } else {
            push_str(&mut out, "\n\\par\n");
        }
    } else if block_is(b, "formula") {
        let l = chars_of(b.latex.as_str());
        out = display_formula_chars(&l);
    } else if block_is(b, "heading") {
        let c = chars_of(b.text.as_str());
        let t = trim_of(&c);
        push_str(&mut out, "\\par\\smallskip\n\\noindent\\textbf{");
        push_all(&mut out, &t);
        push_str(&mut out, "}\\par\n");
    } else if block_is(b, "caution") {
        let c = chars_of(b.content.as_str());
        let t = trim_of(&c);
        push_str(&mut out, "\\par\\smallskip\n\\noindent\\textbf{【注意】} ");
        push_all(&mut out, &t);
        push_str(&mut out, "\\par\n");
    } else if block_is(b, "pattern") {
        match &b.snapshot {
            Some(s) => {
                out = card_chars(s);
                push_str(&mut out, "\n");
            },
            None => {},
        }
    }
    out
}

pub fn render_flow_chars(blocks: &[SolutionFlowBlock]) -> (r: Vec<char>)
    ensures
        r@ == render_flow(flow_view(blocks@)),
{
    let ghost bs = flow_view(blocks@);
    let mut out: Vec<char> = Vec::new();
    let mut i: usize = 0;
    while i < blocks.len()
        invariant
            i <= blocks.len(),
            bs == flow_view(blocks@),
            out@ == flow_pieces(bs, i as int),
        decreases blocks.len() - i,
    {
        let nf = i + 1 < blocks.len() && block_is(&blocks[i + 1], "formula");
        assert(bs[i as int] == blocks@[i as int]@);
        assert(i + 1 < blocks.len() ==> bs[i + 1] == blocks@[i + 1]@);
        let piece = block_piece_chars(&blocks[i], nf);
        push_all(&mut out, &piece);
        i += 1;
    }
    let r = trim_of(&out);
    if r.len() == 0 {
        return Vec::new();
    }
    let mut res: Vec<char> = Vec::new();
    push_str(
        &mut res,
        "{\\setlength{\\abovedisplayskip}{0.4em}%\n\\setlength{\\belowdisplayskip}{0.4em}%\n\\setlength{\\abovedisplayshortskip}{0.25em}%\n\\setlength{\\belowdisplayshortskip}{0.25em}%\n",
    );
    push_all(&mut res, &r);
    push_str(&mut res, "\n}");
    res
}

/// The LaTeX of a flow of blocks.
pub fn render_flow_blocks(blocks: &[SolutionFlowBlock]) -> (r: String)
    ensures
        r@ == render_flow(flow_view(blocks@)),
{
    let v = render_flow_chars(blocks);
    string_of(&v)
}

// ---------------------------------------------------------------------------
// Usage sentences after pattern cards
// ---------------------------------------------------------------------------

/// A candidate title without a trailing `の利用` / `の活用`.
pub open spec fn action_name(title: Seq<char>) -> Seq<char> {
    let t = trim(title);
    if has_suffix(t, "の利用"@) || has_suffix(t, "の活用"@) {
        t.take(t.len() - 3)
    } else {
        t
    }
}

/// Position of the first strategy with the given id.
pub open spec fn strategy_with_id(sts: Seq<PatternStrategyInput>, id: i64) -> Option<int>
    decreases sts.len(),
{
    if sts.len() == 0 {
        None
    } else if sts[0].id == Some(id) {
        Some(0)
    } else {
        match strategy_with_id(sts.drop_first(), id) {
            Some(k) => Some(k + 1),
            None => None,
        }
    }
}

/// Action names of the used candidates that the snapshot knows, non-empty ones.
pub open spec fn used_names(sts: Seq<PatternStrategyInput>, used: Seq<i64>) -> Seq<Seq<char>>
    decreases used.len(),
{
    if used.len() == 0 {
        seq![]
    } else {
        let prev = used_names(sts, used.drop_last());
        match strategy_with_id(sts, used.last()) {
            Some(k) => if 0 <= k < sts.len() && action_name(sts[k].title@).len() > 0 {
                prev.push(action_name(sts[k].title@))
            } else {
                prev
            },
            None => prev,
        }
    }
}

pub open spec fn default_usage() -> Seq<char> {
    "ここでは、この定石を用いる。"@
}

/// The sentence that explains which candidates of a pattern block are used.
pub open spec fn usage_sentence(b: FlowBlock) -> Seq<char> {
    match b.snapshot {
        None => default_usage(),
        Some(s) => {
            let names = used_names(s.strategies, b.used);
            if names.len() == 0 {
                default_usage()
            } else if names.len() == 1 {
                "ここでは、"@ + names[0] + "を用いる。"@
            } else {
                "ここでは、"@ + join(names, "と"@) + "のいずれも使えるため、それぞれを用いる解法を考える。"@
            }
        },
    }
}

/// Whether block `i` is a pattern block not already followed by its own usage sentence.
pub open spec fn needs_usage(bs: Seq<FlowBlock>, i: int) -> bool {
    bs[i].block_type == "pattern"@ && !(i + 1 < bs.len() && bs[i + 1].block_type == "text"@
        && has_prefix(trim_start(bs[i + 1].content), "ここでは"@))
}

pub open spec fn usage_id(id: Seq<char>) -> Seq<char> {
    (if trim(id).len() == 0 {
        "pattern"@
    } else {
        trim(id)
    }) + "-usage"@
}

pub open spec fn usage_block(b: FlowBlock) -> FlowBlock {
    plain_block(usage_id(b.id), "text"@, usage_sentence(b), seq![])
}

/// The first `k` blocks, each pattern block followed by a usage sentence when it lacks one.
pub open spec fn with_usage(bs: Seq<FlowBlock>, k: int) -> Seq<FlowBlock>
    decreases k,
{
    if k <= 0 {
        seq![]
    } else {
        with_usage(bs, k - 1) + seq![bs[k - 1]] + if needs_usage(bs, k - 1) {
            seq![usage_block(bs[k - 1])]
        } else {
            seq![]
        }
    }
}

fn action_name_chars(title: &Vec<char>) -> (r: Vec<char>)
    ensures
        r@ == action_name(title@),
{
    let t = trim_of(title);
    proof {
        reveal_strlit("の利用");
        reveal_strlit("の活用");
    }
    if ends_with_str(&t, "の利用") || ends_with_str(&t, "の活用") {
        slice_of(&t, 0, t.len() - 3)
    } else {
        t
    }
}

/// A candidate title as an action (without `の利用` / `の活用`).
pub fn candidate_action_name(title: &str) -> (r: String)
    ensures
        r@ == action_name(title@),
{
    let v = chars_of(title);
    let r = action_name_chars(&v);
    string_of(&r)
}

fn strategy_with_id_exec(sts: &Vec<PatternStrategyInput>, id: i64) -> (r: Option<usize>)
    ensures
        match strategy_with_id(sts@, id) {
            Some(k) => r == Some(k as usize) && 0 <= k < sts@.len(),
            None => r is None,
        },
        r matches Some(x) ==> strategy_with_id(sts@, id) == Some(x as int),
{
    let mut i: usize = 0;
    assert(sts@.skip(0) =~= sts@);
    proof {
        lemma_strategy_with_id_bound(sts@, id);
    }
    while i < sts.len()
        invariant
            i <= sts.len(),
            strategy_with_id(sts@, id) == match strategy_with_id(sts@.skip(i as int), id) {
                Some(k) => Some(k + i),
                None => None::<int>,
            },
            forall|k: int| #[trigger] strategy_with_id(sts@.skip(i as int), id) == Some(k) ==> 0 <= k < sts@.len() - i,
        decreases sts.len() - i,
    {
        let ghost rest = sts@.skip(i as int);
        assert(rest.drop_first() =~= sts@.skip(i + 1));
        if sts[i].id == Some(id) {
            assert(strategy_with_id(rest, id) == Some(0int));
            return Some(i);
        }
        proof {
            lemma_strategy_with_id_bound(sts@.skip(i + 1), id);
        }
        i += 1;
    }
    None
}

proof fn lemma_strategy_with_id_bound(sts: Seq<PatternStrategyInput>, id: i64)
    ensures
        forall|k: int| #[trigger] strategy_with_id(sts, id) == Some(k) ==> 0 <= k < sts.len(),
    decreases sts.len(),
{
    if sts.len() > 0 {
        lemma_strategy_with_id_bound(sts.drop_first(), id);
    }
}

fn usage_sentence_chars(b: &SolutionFlowBlock) -> (r: Vec<char>)
    ensures
        r@ == usage_sentence(b@),
{
    match &b.snapshot {
        None => chars_of("ここでは、この定石を用いる。"),
        Some(s) => {
            let used = &b.used_strategy_ids;
            let mut names: Vec<Vec<char>> = Vec::new();
            let mut i: usize = 0;
            while i < used.len()
                invariant
                    i <= used.len(),
                    views(names@) == used_names(s@.strategies, used@.take(i as int)),
                decreases used.len() - i,
            {
                proof {
                    assert(used@.take(i + 1).drop_last() =~= used@.take(i as int));
                    assert(used@.take(i + 1).last() == used@[i as int]);
                }
                match strategy_with_id_exec(&s.strategies, used[i]) {
                    Some(k) => {
                        assert(strategy_with_id(s@.strategies, used@[i as int]) == Some(k as int));
                        let t = chars_of(s.strategies[k].title.as_str());
                        let a = action_name_chars(&t);
                        if a.len() > 0 {
                            let ghost pv = views(names@);
                            names.push(a);
                            assert(views(names@) =~= pv.push(a@));
                        }
                    },
                    None => {},
                }
                i += 1;
            }
            assert(used@.take(used@.len() as int) =~= used@);
            if names.len() == 0 {
                chars_of("ここでは、この定石を用いる。")
            } else if names.len() == 1 {
                let mut out: Vec<char> = Vec::new();
                push_str(&mut out, "ここでは、");
                push_all(&mut out, &names[0]);
                push_str(&mut out, "を用いる。");
                out
            } else {
                let sep = chars_of("と");
                let j = join_chars(&names, &sep);
                let mut out: Vec<char> = Vec::new();
                push_str(&mut out, "ここでは、");
                push_all(&mut out, &j);
                push_str(&mut out, "のいずれも使えるため、それぞれを用いる解法を考える。");
                out
            }
        },
    }
}

/// The sentence that explains the choice of candidates of a pattern block.
pub fn default_pattern_usage_explanation(block: &SolutionFlowBlock) -> (r: String)
    ensures
        r@ == usage_sentence(block@),
{
    let v = usage_sentence_chars(block);
    string_of(&v)
}

/// A block with the given texts and nothing else.
pub fn new_plain_block(id: &Vec<char>, block_type: &str, content: &Vec<char>, text: &Vec<char>) -> (r: SolutionFlowBlock)
    ensures
        r@ == plain_block(id@, block_type@, content@, text@),
{
    let t = chars_of(block_type);
    SolutionFlowBlock {
        id: string_of(id),
        block_type: string_of(&t),
        content: string_of(content),
        text: string_of(text),
        latex: String::new(),
        pattern_id: None,
        pattern_version: None,
        snapshot: None,
        used_strategy_ids: Vec::new(),
    }
}

/// Every pattern block followed by a sentence on the candidates it uses,
/// unless the next block already explains it (a text starting with `ここでは`).
pub fn ensure_pattern_usage_explanations(blocks: Vec<SolutionFlowBlock>) -> (r: Vec<SolutionFlowBlock>)
    ensures
        flow_view(r@) == with_usage(flow_view(blocks@), blocks@.len() as int),
{
    let ghost bs = flow_view(blocks@);
    let len0 = blocks.len();
    let ghost n = len0 as int;
    let mut rest = blocks;
    let mut out: Vec<SolutionFlowBlock> = Vec::new();
    let mut i: usize = 0;
    while rest.len() > 0
        invariant
            i <= n,
            rest@.len() == n - i,
            bs.len() == n,
            n <= usize::MAX,
            forall|j: int| 0 <= j < rest@.len() ==> #[trigger] rest@[j]@ == bs[i + j],
            flow_view(out@) == with_usage(bs, i as int),
        decreases rest.len(),
    {
        let block = rest.remove(0);
        assert(block@ == bs[i as int]);
        let mut needs = block_is(&block, "pattern");
        if needs && rest.len() > 0 {
            assert(rest@[0]@ == bs[i + 1]);
            if block_is(&rest[0], "text") {
                let c = chars_of(rest[0].content.as_str());
                let t = trim_start_of(&c);
                if starts_with_str(&t, "ここでは") {
                    needs = false;
                }
            }
        }
        assert(needs == needs_usage(bs, i as int));
        let ghost pv = flow_view(out@);
        if needs {
            let idc = chars_of(block.id.as_str());
            let idt = trim_of(&idc);
            let mut uid = if idt.len() == 0 {
                chars_of("pattern")
            } else {
                idt
            };
            push_str(&mut uid, "-usage");
            let sentence = usage_sentence_chars(&block);
            let empty: Vec<char> = Vec::new();
            let ub = new_plain_block(&uid, "text", &sentence, &empty);
            assert(ub@ == usage_block(bs[i as int]));
            out.push(block);
            out.push(ub);
            assert(flow_view(out@) =~= pv + seq![bs[i as int]] + seq![usage_block(bs[i as int])]);
        } else {
            out.push(block);
            assert(flow_view(out@) =~= pv + seq![bs[i as int]] + seq![]);
        }
        i += 1;
    }
    out
}

} // verus!
