//! Searching the bank: the statement and the bound values of a problem or
//! part search. The caller runs the statement; this module decides what it says.
use vstd::prelude::*;
use crate::text::{chars_of, decimal, decimal_of, join, join_chars, push_all, push_str, replace_all,
    replace_chars, trim, trim_of, views, is_str};
use crate::problems::{rank_of, normalize_rank};
use crate::models::opt_string_view;

verus! {

/// A value bound to a numbered placeholder `?n`.
#[derive(Clone, Debug, PartialEq, Eq)]
pub enum SqlArg {
    Int(i64),
    Text(String),
    Null,
}

/// What a bound value is.
pub enum SqlValue {
    Int(i64),
    Text(Seq<char>),
    Null,
}

impl View for SqlArg {
    type V = SqlValue;

    open spec fn view(&self) -> SqlValue {
        match self {
            SqlArg::Int(i) => SqlValue::Int(*i),
            SqlArg::Text(s) => SqlValue::Text(s@),
            SqlArg::Null => SqlValue::Null,
        }
    }
}

pub open spec fn arg_views(a: Seq<SqlArg>) -> Seq<SqlValue> {
    a.map_values(|x: SqlArg| x@)
}

/// A statement and the values for its placeholders `?1`, `?2`, ... in that order.
#[derive(Clone, Debug)]
pub struct SqlQuery {
    pub sql: String,
    pub args: Vec<SqlArg>,
}

impl View for SqlQuery {
    type V = (Seq<char>, Seq<SqlValue>);

    open spec fn view(&self) -> (Seq<char>, Seq<SqlValue>) {
        (self.sql@, arg_views(self.args@))
    }
}

/// A problem search as the search screen sends it.
#[derive(Clone, Debug, Default)]
pub struct SearchQuery {
    pub text: String,
    pub bank_node_id: Option<i64>,
    pub include_descendants: Option<bool>,
    pub subject_id: Option<i64>,
    pub field_id: Option<i64>,
    pub unit_id: Option<i64>,
    pub difficulty: Option<String>,
    pub difficulty_rank: Option<String>,
    pub difficulty_ranks: Option<Vec<String>>,
    pub required_filter: Option<String>,
    pub tag: Option<String>,
}

/// A part search as the parts screen sends it.
#[derive(Clone, Debug, Default)]
pub struct PartSearchQuery {
    pub text: String,
    pub bank_node_id: Option<i64>,
    pub include_descendants: Option<bool>,
    pub subject_id: Option<i64>,
    pub field_id: Option<i64>,
    pub unit_id: Option<i64>,
    pub unassigned_only: Option<bool>,
    pub part_type: Option<String>,
    pub category: Option<String>,
    pub difficulty_rank: Option<String>,
    pub difficulty_ranks: Option<Vec<String>>,
    pub required_filter: Option<String>,
    pub tag: Option<String>,
}

pub const PROBLEM_SELECT: &'static str = "SELECT DISTINCT p.id, p.title, p.difficulty, p.difficulty_rank, p.is_required, p.answer_completed, p.explanation_completed, p.updated_at, p.bank_node_id, p.unit_id, COALESCE(u.name,''), COALESCE(f.name,''), COALESCE(s.name,'') FROM problems p LEFT JOIN units u ON u.id = p.unit_id LEFT JOIN fields f ON f.id = u.field_id LEFT JOIN subjects s ON s.id = f.subject_id WHERE 1=1";
pub const PROBLEM_TEXT_FILTER: &'static str = " AND (p.title LIKE ?{0} OR p.statement_latex LIKE ?{0} OR p.statement_latex_two_column LIKE ?{0} OR EXISTS (WITH RECURSIVE ancestors(id, parent_id, name) AS (SELECT id, parent_id, name FROM bank_nodes WHERE id=p.bank_node_id UNION ALL SELECT parent.id, parent.parent_id, parent.name FROM bank_nodes parent JOIN ancestors ON ancestors.parent_id=parent.id) SELECT 1 FROM ancestors WHERE name LIKE ?{0}) OR p.difficulty LIKE ?{0} OR p.difficulty_rank LIKE ?{0} OR EXISTS (SELECT 1 FROM problem_tags pt JOIN tags t ON t.id=pt.tag_id WHERE pt.problem_id=p.id AND t.name LIKE ?{0}))";
pub const PROBLEM_SUBTREE_FILTER: &'static str = " AND p.bank_node_id IN (WITH RECURSIVE descendants(id) AS (SELECT id FROM bank_nodes WHERE id=?{0} UNION ALL SELECT child.id FROM bank_nodes child JOIN descendants d ON child.parent_id=d.id) SELECT id FROM descendants)";
pub const PROBLEM_NODE_FILTER: &'static str = " AND p.bank_node_id=?{0}";
pub const PROBLEM_UNIT_FILTER: &'static str = " AND u.id = ?{0}";
pub const DIFFICULTY_FILTER: &'static str = " AND p.difficulty = ?{0}";
pub const PROBLEM_TAG_FILTER: &'static str = " AND EXISTS (SELECT 1 FROM problem_tags pt JOIN tags t ON t.id=pt.tag_id WHERE pt.problem_id=p.id AND t.name = ?{0})";

pub const PART_SELECT: &'static str = "SELECT DISTINCT p.id, p.bank_node_id, p.unit_id, COALESCE(u.name,''), f.id, COALESCE(f.name,''), s.id, COALESCE(s.name,''), p.title, p.part_type, p.category, p.plain_text_preview, p.difficulty_rank, p.is_required, p.output_target, p.layout_mode, p.usage_count, p.updated_at, p.version FROM parts p LEFT JOIN units u ON u.id=p.unit_id LEFT JOIN fields f ON f.id=u.field_id LEFT JOIN subjects s ON s.id=f.subject_id LEFT JOIN bank_nodes bn ON bn.id=p.bank_node_id WHERE 1=1";
pub const PART_TEXT_FILTER: &'static str = " AND (p.title LIKE ?{0} OR p.latex_source LIKE ?{0} OR p.description LIKE ?{0} OR p.category LIKE ?{0} OR bn.name LIKE ?{0} OR u.name LIKE ?{0} OR f.name LIKE ?{0} OR s.name LIKE ?{0} OR EXISTS (SELECT 1 FROM part_tags pt WHERE pt.part_id=p.id AND pt.tag LIKE ?{0}))";
pub const PART_SUBTREE_FILTER: &'static str = " AND p.bank_node_id IN (WITH RECURSIVE subtree(id) AS (SELECT id FROM bank_nodes WHERE id=?{0} UNION ALL SELECT child.id FROM bank_nodes child JOIN subtree parent ON child.parent_id=parent.id) SELECT id FROM subtree)";
pub const PART_NODE_FILTER: &'static str = " AND p.bank_node_id = ?{0}";
pub const PART_UNIT_FILTER: &'static str = " AND p.unit_id = ?{0}";
pub const UNASSIGNED_ONLY: &'static str = " AND p.bank_node_id IS NULL";
pub const PART_TYPE_FILTER: &'static str = " AND p.part_type = ?{0}";
pub const CATEGORY_FILTER: &'static str = " AND p.category = ?{0}";
pub const PART_TAG_FILTER: &'static str = " AND EXISTS (SELECT 1 FROM part_tags pt WHERE pt.part_id=p.id AND pt.tag = ?{0})";

pub const SUBJECT_FILTER: &'static str = " AND s.id = ?{0}";
pub const FIELD_FILTER: &'static str = " AND f.id = ?{0}";
pub const REQUIRED_ONLY: &'static str = " AND p.is_required != 0";
pub const NOT_REQUIRED_ONLY: &'static str = " AND p.is_required = 0";
pub const RANK_IN_OPEN: &'static str = "p.difficulty_rank IN (";
pub const RANK_UNSET_CLAUSE: &'static str = "(p.difficulty_rank IS NULL OR p.difficulty_rank='')";
/// The rank a search screen sends for "no rank given".
pub const UNSET_RANK: &'static str = "__unset";
pub const ORDER_RECENT: &'static str = " ORDER BY p.updated_at DESC LIMIT 500";

// ---------------------------------------------------------------------------
// The statement, step by step
// ---------------------------------------------------------------------------

/// A filter template with each `{0}` replaced by the placeholder number `n`.
pub open spec fn filled(template: Seq<char>, n: nat) -> Seq<char> {
    replace_all(template, "{0}"@, decimal(n))
}

/// Binds one more value and appends the filter that names it.
pub open spec fn bound(st: (Seq<char>, Seq<SqlValue>), v: SqlValue, template: Seq<char>) -> (Seq<char>, Seq<SqlValue>) {
    let args = st.1.push(v);
    (st.0 + filled(template, args.len()), args)
}

pub open spec fn int_filter(st: (Seq<char>, Seq<SqlValue>), v: Option<i64>, template: Seq<char>) -> (Seq<char>, Seq<SqlValue>) {
    match v {
        Some(i) => bound(st, SqlValue::Int(i), template),
        None => st,
    }
}

/// A text filter applies when its value is given and not empty.
pub open spec fn text_filter(st: (Seq<char>, Seq<SqlValue>), v: Option<Seq<char>>, template: Seq<char>) -> (Seq<char>, Seq<SqlValue>) {
    match v {
        Some(s) => if s.len() > 0 { bound(st, SqlValue::Text(s), template) } else { st },
        None => st,
    }
}

/// The free-text filter: the trimmed text, wrapped in `%` for `LIKE`.
pub open spec fn like_filter(st: (Seq<char>, Seq<SqlValue>), text: Seq<char>, template: Seq<char>) -> (Seq<char>, Seq<SqlValue>) {
    let t = trim(text);
    if t.len() > 0 { bound(st, SqlValue::Text("%"@ + t + "%"@), template) } else { st }
}

pub open spec fn ranks_view(r: Option<Vec<String>>) -> Seq<Seq<char>> {
    match r {
        Some(v) => v@.map_values(|s: String| s@),
        None => Seq::empty(),
    }
}

/// The requested ranks that are ranks, as stored, in the order given.
pub open spec fn kept_ranks(rs: Seq<Seq<char>>) -> Seq<Seq<char>>
    decreases rs.len(),
{
    if rs.len() == 0 {
        Seq::empty()
    } else {
        let rest = kept_ranks(rs.drop_last());
        match rank_of(Some(rs.last())) {
            Some(u) => rest.push(u),
            None => rest,
        }
    }
}

/// The ranks searched for: those requested, else the single rank given.
pub open spec fn chosen_ranks(requested: Seq<Seq<char>>, single: Option<Seq<char>>) -> Seq<Seq<char>> {
    let kept = kept_ranks(requested);
    if kept.len() > 0 {
        kept
    } else {
        match rank_of(single) {
            Some(u) => seq![u],
            None => Seq::empty(),
        }
    }
}

pub open spec fn rank_placeholders(first: nat, n: nat) -> Seq<Seq<char>> {
    Seq::new(n, |i: int| "?"@ + decimal((first + i) as nat))
}

pub open spec fn rank_values(ranks: Seq<Seq<char>>) -> Seq<SqlValue> {
    ranks.map_values(|r: Seq<char>| SqlValue::Text(r))
}

/// The rank filter: the chosen ranks, or no rank at all where `__unset` was requested.
pub open spec fn rank_filter(st: (Seq<char>, Seq<SqlValue>), requested: Seq<Seq<char>>, single: Option<Seq<char>>) -> (Seq<char>, Seq<SqlValue>) {
    let ranks = chosen_ranks(requested, single);
    let unset = requested.contains(UNSET_RANK@);
    if ranks.len() == 0 && !unset {
        st
    } else {
        let in_list = RANK_IN_OPEN@ + join(rank_placeholders(st.1.len() + 1, ranks.len()), ","@) + ")"@;
        let clauses = (if ranks.len() > 0 { seq![in_list] } else { Seq::empty() })
            + (if unset { seq![RANK_UNSET_CLAUSE@] } else { Seq::empty() });
        (st.0 + " AND ("@ + join(clauses, " OR "@) + ")"@, st.1 + rank_values(ranks))
    }
}

/// `required` and `not_required` narrow by the required flag; anything else does not.
pub open spec fn required_filter(st: (Seq<char>, Seq<SqlValue>), r: Option<Seq<char>>) -> (Seq<char>, Seq<SqlValue>) {
    match r {
        Some(s) => if s == "required"@ {
            (st.0 + REQUIRED_ONLY@, st.1)
        } else if s == "not_required"@ {
            (st.0 + NOT_REQUIRED_ONLY@, st.1)
        } else {
            st
        },
        None => st,
    }
}

/// The problem search: every filter that the query gives, in a fixed order,
/// newest first, at most 500 rows.
pub open spec fn problem_search(q: SearchQuery) -> (Seq<char>, Seq<SqlValue>) {
    let s0 = (PROBLEM_SELECT@, Seq::<SqlValue>::empty());
    let s1 = like_filter(s0, q.text@, PROBLEM_TEXT_FILTER@);
    let s2 = match q.bank_node_id {
        Some(b) => bound(s1, SqlValue::Int(b),
            if q.include_descendants.unwrap_or(true) { PROBLEM_SUBTREE_FILTER@ } else { PROBLEM_NODE_FILTER@ }),
        None => s1,
    };
    let s3 = int_filter(s2, q.subject_id, SUBJECT_FILTER@);
    let s4 = int_filter(s3, q.field_id, FIELD_FILTER@);
    let s5 = int_filter(s4, q.unit_id, PROBLEM_UNIT_FILTER@);
    let s6 = text_filter(s5, opt_string_view(q.difficulty), DIFFICULTY_FILTER@);
    let s7 = rank_filter(s6, ranks_view(q.difficulty_ranks), opt_string_view(q.difficulty_rank));
    let s8 = required_filter(s7, opt_string_view(q.required_filter));
    let s9 = text_filter(s8, opt_string_view(q.tag), PROBLEM_TAG_FILTER@);
    (s9.0 + ORDER_RECENT@, s9.1)
}

/// The part search: as the problem search, over parts; the subtree is searched
/// only where asked for, and parts without a bank node can be asked for alone.
pub open spec fn part_search(q: PartSearchQuery) -> (Seq<char>, Seq<SqlValue>) {
    let s0 = (PART_SELECT@, Seq::<SqlValue>::empty());
    let s1 = like_filter(s0, q.text@, PART_TEXT_FILTER@);
    let s2 = match q.bank_node_id {
        Some(b) => bound(s1, SqlValue::Int(b),
            if q.include_descendants == Some(true) { PART_SUBTREE_FILTER@ } else { PART_NODE_FILTER@ }),
        None => s1,
    };
    let s3 = int_filter(s2, q.subject_id, SUBJECT_FILTER@);
    let s4 = int_filter(s3, q.field_id, FIELD_FILTER@);
    let s5 = int_filter(s4, q.unit_id, PART_UNIT_FILTER@);
    let s6 = if q.unassigned_only == Some(true) { (s5.0 + UNASSIGNED_ONLY@, s5.1) } else { s5 };
    let s7 = text_filter(s6, opt_string_view(q.part_type), PART_TYPE_FILTER@);
    let s8 = text_filter(s7, opt_string_view(q.category), CATEGORY_FILTER@);
    let s9 = rank_filter(s8, ranks_view(q.difficulty_ranks), opt_string_view(q.difficulty_rank));
    let s10 = required_filter(s9, opt_string_view(q.required_filter));
    let s11 = text_filter(s10, opt_string_view(q.tag), PART_TAG_FILTER@);
    (s11.0 + ORDER_RECENT@, s11.1)
}

// ---------------------------------------------------------------------------
// Building it
// ---------------------------------------------------------------------------

fn bind(sql: &mut Vec<char>, args: &mut Vec<SqlArg>, v: SqlArg, template: &str)
    requires
        old(args).len() < usize::MAX,
    ensures
        (final(sql)@, arg_views(final(args)@)) == bound((old(sql)@, arg_views(old(args)@)), v@, template@),
        final(args).len() == old(args).len() + 1,
{
    let ghost v_view = v@;
    args.push(v);
    let n = args.len();
    let digits = decimal_of(n as u64);
    let filled_in = replace_chars(&chars_of(template), &chars_of("{0}"), &digits);
    push_all(sql, &filled_in);
    proof {
        assert(arg_views(args@) =~= arg_views(old(args)@).push(v_view));
    }
}

fn bind_int(sql: &mut Vec<char>, args: &mut Vec<SqlArg>, v: Option<i64>, template: &str)
    requires
        old(args).len() < usize::MAX,
    ensures
        (final(sql)@, arg_views(final(args)@)) == int_filter((old(sql)@, arg_views(old(args)@)), v, template@),
        final(args).len() <= old(args).len() + 1,
{
    if let Some(i) = v {
        bind(sql, args, SqlArg::Int(i), template);
    }
}

fn bind_text(sql: &mut Vec<char>, args: &mut Vec<SqlArg>, v: &Option<String>, template: &str)
    requires
        old(args).len() < usize::MAX,
    ensures
        (final(sql)@, arg_views(final(args)@)) == text_filter((old(sql)@, arg_views(old(args)@)), opt_string_view(*v), template@),
        final(args).len() <= old(args).len() + 1,
{
    if let Some(s) = v {
        if chars_of(s.as_str()).len() > 0 {
            bind(sql, args, SqlArg::Text(s.clone()), template);
        }
    }
}

fn bind_like(sql: &mut Vec<char>, args: &mut Vec<SqlArg>, text: &String, template: &str)
    requires
        old(args).len() < usize::MAX,
    ensures
        (final(sql)@, arg_views(final(args)@)) == like_filter((old(sql)@, arg_views(old(args)@)), text@, template@),
        final(args).len() <= old(args).len() + 1,
{
    let t = trim_of(&chars_of(text.as_str()));
    if t.len() > 0 {
        let mut like: Vec<char> = Vec::new();
        like.push('%');
        push_all(&mut like, &t);
        like.push('%');
        proof {
            reveal_strlit("%");
            assert(like@ =~= "%"@ + trim(text@) + "%"@);
        }
        bind(sql, args, SqlArg::Text(crate::text::string_of(&like)), template);
    }
}

proof fn lemma_kept_len(rs: Seq<Seq<char>>)
    ensures
        kept_ranks(rs).len() <= rs.len(),
    decreases rs.len(),
{
    if rs.len() > 0 {
        lemma_kept_len(rs.drop_last());
    }
}

fn chosen_ranks_of(requested: &Option<Vec<String>>, single: &Option<String>) -> (r: Vec<String>)
    ensures
        r@.map_values(|s: String| s@) == chosen_ranks(ranks_view(*requested), opt_string_view(*single)),
        r.len() <= ranks_view(*requested).len() + 1,
{
    let ghost rs = ranks_view(*requested);
    let mut kept: Vec<String> = Vec::new();
    if let Some(v) = requested {
        let mut i: usize = 0;
        while i < v.len()
            invariant
                i <= v.len(),
                rs == v@.map_values(|s: String| s@),
                kept@.map_values(|s: String| s@) == kept_ranks(rs.take(i as int)),
            decreases v.len() - i,
        {
            let n = normalize_rank(Some(v[i].clone()));
            proof {
                assert(rs.take(i + 1).drop_last() =~= rs.take(i as int));
                assert(rs.take(i + 1).last() == v@[i as int]@);
            }
            if let Some(u) = n {
                let ghost before = kept@;
                kept.push(u);
                assert(kept@.map_values(|s: String| s@) =~= before.map_values(|s: String| s@).push(kept@.last()@));
            }
            i += 1;
        }
        assert(rs.take(v.len() as int) =~= rs);
    } else {
        assert(kept@.map_values(|s: String| s@) =~= kept_ranks(rs));
    }
    proof {
        lemma_kept_len(rs);
    }
    if kept.len() > 0 {
        kept
    } else {
        let mut r: Vec<String> = Vec::new();
        if let Some(u) = normalize_rank(single.clone()) {
            r.push(u);
        }
        assert(r@.map_values(|s: String| s@) =~= chosen_ranks(rs, opt_string_view(*single)));
        r
    }
}

fn asks_unset(requested: &Option<Vec<String>>) -> (b: bool)
    ensures
        b == ranks_view(*requested).contains(UNSET_RANK@),
{
    let ghost rs = ranks_view(*requested);
    match requested {
        Some(v) => {
            let mut i: usize = 0;
            while i < v.len()
                invariant
                    i <= v.len(),
                    rs == v@.map_values(|s: String| s@),
                    rs == ranks_view(*requested),
                    forall|j: int| 0 <= j < i ==> rs[j] != UNSET_RANK@,
                decreases v.len() - i,
            {
                if is_str(&chars_of(v[i].as_str()), UNSET_RANK) {
                    assert(rs[i as int] == UNSET_RANK@);
                    assert(rs.contains(UNSET_RANK@));
                    return true;
                }
                i += 1;
            }
            false
        },
        None => false,
    }
}

fn bind_ranks(sql: &mut Vec<char>, args: &mut Vec<SqlArg>, requested: &Option<Vec<String>>, single: &Option<String>)
    requires
        old(args).len() + ranks_view(*requested).len() + 1 < usize::MAX,
    ensures
        (final(sql)@, arg_views(final(args)@)) == rank_filter((old(sql)@, arg_views(old(args)@)), ranks_view(*requested), opt_string_view(*single)),
        final(args).len() <= old(args).len() + ranks_view(*requested).len() + 1,
{
    let ranks = chosen_ranks_of(requested, single);
    let unset = asks_unset(requested);
    let ghost chosen = chosen_ranks(ranks_view(*requested), opt_string_view(*single));
    if ranks.len() == 0 && !unset {
        return;
    }
    let ghost start = arg_views(args@);
    let mut phs: Vec<Vec<char>> = Vec::new();
    let mut i: usize = 0;
    while i < ranks.len()
        invariant
            i <= ranks.len(),
            ranks@.map_values(|s: String| s@) == chosen,
            arg_views(args@) == start + rank_values(chosen.take(i as int)),
            start.len() + ranks.len() < usize::MAX,
            views(phs@) == rank_placeholders(start.len() + 1, i as nat),
        decreases ranks.len() - i,
    {
        let ghost before = args@;
        args.push(SqlArg::Text(ranks[i].clone()));
        assert(arg_views(args@) =~= arg_views(before).push(SqlValue::Text(chosen[i as int])));
        assert(rank_values(chosen.take(i + 1)) =~= rank_values(chosen.take(i as int)).push(SqlValue::Text(chosen[i as int])));
        assert(args.len() == start.len() + i + 1) by {
            assert(arg_views(args@).len() == args@.len());
        }
        let mut ph: Vec<char> = Vec::new();
        ph.push('?');
        push_all(&mut ph, &decimal_of(args.len() as u64));
        proof {
            reveal_strlit("?");
            assert(ph@ =~= "?"@ + decimal((start.len() + 1 + i) as nat));
        }
        let ghost phs_before = phs@;
        phs.push(ph);
        assert(views(phs@) =~= views(phs_before).push(ph@));
        assert(views(phs@) =~= rank_placeholders(start.len() + 1, (i + 1) as nat));
        i += 1;
    }
    assert(chosen.take(ranks.len() as int) =~= chosen);
    let mut clauses: Vec<Vec<char>> = Vec::new();
    if ranks.len() > 0 {
        let mut c = chars_of(RANK_IN_OPEN);
        push_all(&mut c, &join_chars(&phs, &chars_of(",")));
        push_str(&mut c, ")");
        clauses.push(c);
    }
    if unset {
        clauses.push(chars_of(RANK_UNSET_CLAUSE));
    }
    proof {
        let in_list = RANK_IN_OPEN@ + join(rank_placeholders(start.len() + 1, chosen.len()), ","@) + ")"@;
        assert(views(clauses@) =~= (if chosen.len() > 0 { seq![in_list] } else { Seq::empty() })
            + (if unset { seq![RANK_UNSET_CLAUSE@] } else { Seq::empty() }));
    }
    push_str(sql, " AND (");
    push_all(sql, &join_chars(&clauses, &chars_of(" OR ")));
    push_str(sql, ")");
}

fn apply_required(sql: &mut Vec<char>, r: &Option<String>)
    ensures
        final(sql)@ == required_filter((old(sql)@, Seq::<SqlValue>::empty()), opt_string_view(*r)).0,
{
    if let Some(s) = r {
        let v = chars_of(s.as_str());
        if is_str(&v, "required") {
            push_str(sql, REQUIRED_ONLY);
        } else if is_str(&v, "not_required") {
            push_str(sql, NOT_REQUIRED_ONLY);
        }
    }
}

proof fn lemma_required_keeps_args(st: (Seq<char>, Seq<SqlValue>), r: Option<Seq<char>>)
    ensures
        required_filter(st, r).1 == st.1,
        required_filter(st, r).0 == required_filter((st.0, Seq::<SqlValue>::empty()), r).0,
{
}

/// The statement and values of a problem search.
pub fn search_problems(q: &SearchQuery) -> (r: SqlQuery)
    requires
        ranks_view(q.difficulty_ranks).len() < usize::MAX - 16,
    ensures
        r@ == problem_search(*q),
{
    let mut sql = chars_of(PROBLEM_SELECT);
    let mut args: Vec<SqlArg> = Vec::new();
    assert(arg_views(args@) =~= Seq::<SqlValue>::empty());
    bind_like(&mut sql, &mut args, &q.text, PROBLEM_TEXT_FILTER);
    if let Some(b) = q.bank_node_id {
        let descend = match q.include_descendants { Some(d) => d, None => true };
        if descend {
            bind(&mut sql, &mut args, SqlArg::Int(b), PROBLEM_SUBTREE_FILTER);
        } else {
            bind(&mut sql, &mut args, SqlArg::Int(b), PROBLEM_NODE_FILTER);
        }
    }
    bind_int(&mut sql, &mut args, q.subject_id, SUBJECT_FILTER);
    bind_int(&mut sql, &mut args, q.field_id, FIELD_FILTER);
    bind_int(&mut sql, &mut args, q.unit_id, PROBLEM_UNIT_FILTER);
    bind_text(&mut sql, &mut args, &q.difficulty, DIFFICULTY_FILTER);
    bind_ranks(&mut sql, &mut args, &q.difficulty_ranks, &q.difficulty_rank);
    let ghost before = (sql@, arg_views(args@));
    apply_required(&mut sql, &q.required_filter);
    proof {
        lemma_required_keeps_args(before, opt_string_view(q.required_filter));
    }
    bind_text(&mut sql, &mut args, &q.tag, PROBLEM_TAG_FILTER);
    push_str(&mut sql, ORDER_RECENT);
    SqlQuery { sql: crate::text::string_of(&sql), args }
}

/// The statement and values of a part search.
pub fn search_parts(q: &PartSearchQuery) -> (r: SqlQuery)
    requires
        ranks_view(q.difficulty_ranks).len() < usize::MAX - 16,
    ensures
        r@ == part_search(*q),
{
    let mut sql = chars_of(PART_SELECT);
    let mut args: Vec<SqlArg> = Vec::new();
    assert(arg_views(args@) =~= Seq::<SqlValue>::empty());
    bind_like(&mut sql, &mut args, &q.text, PART_TEXT_FILTER);
    if let Some(b) = q.bank_node_id {
        let descend = match q.include_descendants { Some(d) => d, None => false };
        if descend {
            bind(&mut sql, &mut args, SqlArg::Int(b), PART_SUBTREE_FILTER);
        } else {
            bind(&mut sql, &mut args, SqlArg::Int(b), PART_NODE_FILTER);
        }
    }
    bind_int(&mut sql, &mut args, q.subject_id, SUBJECT_FILTER);
    bind_int(&mut sql, &mut args, q.field_id, FIELD_FILTER);
    bind_int(&mut sql, &mut args, q.unit_id, PART_UNIT_FILTER);
    if let Some(true) = q.unassigned_only {
        push_str(&mut sql, UNASSIGNED_ONLY);
    }
    bind_text(&mut sql, &mut args, &q.part_type, PART_TYPE_FILTER);
    bind_text(&mut sql, &mut args, &q.category, CATEGORY_FILTER);
    bind_ranks(&mut sql, &mut args, &q.difficulty_ranks, &q.difficulty_rank);
    let ghost before = (sql@, arg_views(args@));
    apply_required(&mut sql, &q.required_filter);
    proof {
        lemma_required_keeps_args(before, opt_string_view(q.required_filter));
    }
    bind_text(&mut sql, &mut args, &q.tag, PART_TAG_FILTER);
    push_str(&mut sql, ORDER_RECENT);
    SqlQuery { sql: crate::text::string_of(&sql), args }
}


// ---------------------------------------------------------------------------
// Patterns
// ---------------------------------------------------------------------------

/// A pattern search as the pattern library screen sends it.
#[derive(Clone, Debug, Default)]
pub struct PatternSearchQuery {
    pub text: String,
    pub pattern_type: Option<String>,
    pub tag: Option<String>,
    pub domain: Option<String>,
    pub goal: Option<String>,
    pub operation: Option<String>,
    pub structure: Option<String>,
    pub situation: Option<String>,
    pub exclude_id: Option<i64>,
    pub limit: Option<i64>,
    pub offset: Option<i64>,
}

pub const PATTERN_SEARCH: &'static str = "SELECT p.id,p.uuid,p.title,p.summary,p.pattern_type,p.updated_at,p.version, (SELECT COUNT(*) FROM pattern_strategies s WHERE s.pattern_id=p.id), (SELECT COUNT(*) FROM problem_patterns pp WHERE pp.pattern_id=p.id) FROM patterns p WHERE (?1 OR p.title LIKE ?2 OR p.summary LIKE ?2 OR p.situation LIKE ?2 OR p.principle LIKE ?2 OR p.cautions LIKE ?2 OR p.examples LIKE ?2 OR p.source_note LIKE ?2 OR EXISTS(SELECT 1 FROM pattern_strategies s WHERE s.pattern_id=p.id AND (s.title LIKE ?2 OR s.description LIKE ?2 OR s.condition_text LIKE ?2 OR s.reasoning LIKE ?2)) OR EXISTS(SELECT 1 FROM pattern_tags t WHERE t.pattern_id=p.id AND t.tag LIKE ?2) OR EXISTS(SELECT 1 FROM pattern_facets f WHERE f.pattern_id=p.id AND f.value LIKE ?2)) AND (?3 IS NULL OR p.pattern_type=?3) AND (?4 IS NULL OR EXISTS(SELECT 1 FROM pattern_tags t WHERE t.pattern_id=p.id AND t.tag=?4)) AND (?5 IS NULL OR EXISTS(SELECT 1 FROM pattern_facets f WHERE f.pattern_id=p.id AND f.facet_type='domain' AND f.value=?5)) AND (?6 IS NULL OR EXISTS(SELECT 1 FROM pattern_facets f WHERE f.pattern_id=p.id AND f.facet_type='goal' AND f.value=?6)) AND (?7 IS NULL OR EXISTS(SELECT 1 FROM pattern_facets f WHERE f.pattern_id=p.id AND f.facet_type='operation' AND f.value=?7)) AND (?8 IS NULL OR EXISTS(SELECT 1 FROM pattern_facets f WHERE f.pattern_id=p.id AND f.facet_type='structure' AND f.value=?8)) AND (?9 IS NULL OR EXISTS(SELECT 1 FROM pattern_facets f WHERE f.pattern_id=p.id AND f.facet_type='situation' AND f.value=?9)) AND (?10 IS NULL OR p.id<>?10) ORDER BY p.updated_at DESC,p.id DESC LIMIT ?11 OFFSET ?12";

pub open spec fn text_or_null(v: Option<String>) -> SqlValue {
    match v {
        Some(s) => SqlValue::Text(s@),
        None => SqlValue::Null,
    }
}

/// How many patterns one page holds: 100 unless asked, and from 1 to 200.
pub open spec fn page_limit(limit: Option<i64>) -> i64 {
    let l = match limit { Some(l) => l, None => 100 };
    if l < 1 { 1 } else if l > 200 { 200 } else { l }
}

/// How many patterns to skip: none unless asked, and never fewer than none.
pub open spec fn page_offset(offset: Option<i64>) -> i64 {
    let o = match offset { Some(o) => o, None => 0 };
    if o < 0 { 0 } else { o }
}

/// The values bound to the pattern search: whether the text is empty, the
/// text as a `LIKE` pattern, each optional filter (or null), and the page.
pub open spec fn pattern_search_values(q: PatternSearchQuery) -> Seq<SqlValue> {
    let t = trim(q.text@);
    seq![
        SqlValue::Int(if t.len() == 0 { 1 } else { 0 }),
        SqlValue::Text("%"@ + t + "%"@),
        text_or_null(q.pattern_type),
        text_or_null(q.tag),
        text_or_null(q.domain),
        text_or_null(q.goal),
        text_or_null(q.operation),
        text_or_null(q.structure),
        text_or_null(q.situation),
        match q.exclude_id { Some(i) => SqlValue::Int(i), None => SqlValue::Null },
        SqlValue::Int(page_limit(q.limit)),
        SqlValue::Int(page_offset(q.offset)),
    ]
}

fn text_or_null_exec(v: &Option<String>) -> (r: SqlArg)
    ensures
        r@ == text_or_null(*v),
{
    match v {
        Some(s) => SqlArg::Text(s.clone()),
        None => SqlArg::Null,
    }
}

/// The statement and values of a pattern search.
pub fn search_patterns(q: &PatternSearchQuery) -> (r: SqlQuery)
    ensures
        r@ == (PATTERN_SEARCH@, pattern_search_values(*q)),
{
    let t = trim_of(&chars_of(q.text.as_str()));
    let mut like: Vec<char> = Vec::new();
    like.push('%');
    push_all(&mut like, &t);
    like.push('%');
    proof {
        reveal_strlit("%");
        assert(like@ =~= "%"@ + trim(q.text@) + "%"@);
    }
    let limit = match q.limit { Some(l) => l, None => 100 };
    let limit = if limit < 1 { 1 } else if limit > 200 { 200 } else { limit };
    let offset = match q.offset { Some(o) => o, None => 0 };
    let offset = if offset < 0 { 0 } else { offset };
    let args = vec![
        SqlArg::Int(if t.len() == 0 { 1 } else { 0 }),
        SqlArg::Text(crate::text::string_of(&like)),
        text_or_null_exec(&q.pattern_type),
        text_or_null_exec(&q.tag),
        text_or_null_exec(&q.domain),
        text_or_null_exec(&q.goal),
        text_or_null_exec(&q.operation),
        text_or_null_exec(&q.structure),
        text_or_null_exec(&q.situation),
        match q.exclude_id { Some(i) => SqlArg::Int(i), None => SqlArg::Null },
        SqlArg::Int(limit),
        SqlArg::Int(offset),
    ];
    let r = SqlQuery { sql: crate::text::string_of(&chars_of(PATTERN_SEARCH)), args };
    assert(arg_views(r.args@) =~= pattern_search_values(*q));
    r
}

} // verus!
