//! Moving the problem bank in and out as files: what an export holds and how
//! it is grouped, how attachments travel as base64 text, and how an import
//! renames restored attachments in the problem texts.
use vstd::prelude::*;
use base64::Engine;
use crate::models::{opt_string_view, ExplanationSection, ProblemSolutionVariant, SolutionBlock};
use crate::text::{chars_of, eq_chars, is_str, push_all, push_str, replace_all, replace_chars, string_of, trim, trim_of};
use crate::variants::{saved_view, SavedVariant};

verus! {

/// An attachment carried in an export, its bytes as base64 text.
#[derive(Clone, Debug, Default)]
pub struct BankAttachment {
    pub file_name: String,
    pub stored_name: String,
    pub data_base64: String,
}

/// A problem carried in an export.
#[derive(Clone, Debug, Default)]
pub struct BankProblem {
    pub title: String,
    pub statement_latex: String,
    pub statement_latex_two_column: String,
    pub answer_latex: String,
    pub explanation_latex: String,
    pub solution_variants: Vec<ProblemSolutionVariant>,
    pub answer_completed: bool,
    pub explanation_completed: bool,
    pub difficulty: String,
    pub difficulty_rank: Option<String>,
    pub is_required: bool,
    pub memo: String,
    pub tags: Vec<String>,
    pub attachments: Vec<BankAttachment>,
}

#[derive(Clone, Debug, Default)]
pub struct BankUnit {
    pub name: String,
    pub problems: Vec<BankProblem>,
}

#[derive(Clone, Debug, Default)]
pub struct BankField {
    pub name: String,
    pub units: Vec<BankUnit>,
}

#[derive(Clone, Debug, Default)]
pub struct BankSubject {
    pub name: String,
    pub fields: Vec<BankField>,
}

/// An export of the first format: subjects, fields and units.
#[derive(Clone, Debug, Default)]
pub struct BankExport {
    pub kyozai_kobo_bank: u32,
    pub exported_at: String,
    pub subjects: Vec<BankSubject>,
}

/// A folder of an export of the second format, with its problems and subfolders.
pub struct BankNodeExport {
    pub name: String,
    pub problems: Vec<BankProblem>,
    pub children: Vec<BankNodeExport>,
}

/// An export of the second format: folders of any depth.
pub struct BankExportV2 {
    pub format_version: u32,
    pub kyozai_kobo_bank: u32,
    pub exported_at: String,
    pub nodes: Vec<BankNodeExport>,
}

/// What an import created.
#[derive(Clone, Debug, Default)]
pub struct ImportBankResult {
    pub nodes_created: i64,
    pub subjects_created: i64,
    pub fields_created: i64,
    pub units_created: i64,
    pub problems_imported: i64,
}

pub const NEED_ID: &'static str = "IDが必要です";
pub const UNKNOWN_SCOPE: &'static str = "不明な範囲: ";
pub const EMPTY_NODE_NAME: &'static str = "階層名が空のデータは取り込めません";
pub const UNSUPPORTED_V2: &'static str = "対応していない問題バンク形式です";
pub const UNSUPPORTED_VERSION: &'static str = "対応していないバージョンのファイルです";

// ---------------------------------------------------------------------------
// Attachments as base64 text
// ---------------------------------------------------------------------------

/// What the base64 crate's standard engine (padded, standard alphabet) makes of bytes.
pub uninterp spec fn base64_encoded(bytes: Seq<u8>) -> Seq<char>;

/// What the base64 crate's standard engine decodes from a text: the bytes, or
/// none where the text is not valid padded base64.
pub uninterp spec fn base64_decoded(text: Seq<char>) -> Option<Seq<u8>>;

/// Calls `Engine::encode` of `base64::engine::general_purpose::STANDARD`.
/// Trusted: the result is `base64_encoded` of the bytes, a function of the
/// bytes alone. The crate panics only where the encoded length overflows
/// `usize`, which the bound on the input rules out.
#[verifier::external_body]
fn encode_base64(bytes: &Vec<u8>) -> (r: String)
    requires
        bytes.len() <= usize::MAX / 2,
    ensures
        r@ == base64_encoded(bytes@),
{
    base64::engine::general_purpose::STANDARD.encode(bytes)
}

/// Calls `Engine::decode` of `base64::engine::general_purpose::STANDARD`.
/// Trusted: the result is `base64_decoded` of the text, a function of the text
/// alone; an error of the crate becomes none.
#[verifier::external_body]
fn decode_base64(text: &str) -> (r: Option<Vec<u8>>)
    ensures
        match r {
            Some(b) => base64_decoded(text@) == Some(b@),
            None => base64_decoded(text@) is None,
        },
{
    match base64::engine::general_purpose::STANDARD.decode(text) {
        Ok(b) => Some(b),
        Err(_) => None,
    }
}

/// An attachment as exported: its bytes as base64, or empty text where the
/// file could not be read.
pub fn attachment_for_export(file_name: String, stored_name: String, data: Option<Vec<u8>>) -> (r: BankAttachment)
    requires
        data matches Some(b) ==> b.len() <= usize::MAX / 2,
    ensures
        r.file_name == file_name,
        r.stored_name == stored_name,
        r.data_base64@ == match data {
            Some(b) => base64_encoded(b@),
            None => Seq::<char>::empty(),
        },
{
    let data_base64 = match data {
        Some(b) => encode_base64(&b),
        None => String::new(),
    };
    BankAttachment { file_name, stored_name, data_base64 }
}

/// The bytes an imported attachment restores: none where it carries no data or
/// its data is not base64.
pub open spec fn restored_bytes(data: Seq<char>) -> Option<Seq<u8>> {
    if data.len() == 0 { None } else { base64_decoded(data) }
}

pub fn attachment_bytes(a: &BankAttachment) -> (r: Option<Vec<u8>>)
    ensures
        match r {
            Some(b) => restored_bytes(a.data_base64@) == Some(b@),
            None => restored_bytes(a.data_base64@) is None,
        },
{
    if chars_of(a.data_base64.as_str()).len() == 0 {
        None
    } else {
        decode_base64(a.data_base64.as_str())
    }
}

/// The name a restored attachment is stored under: `img`, a random token, a
/// dot and the extension of the old name (`png` where it has none).
pub open spec fn stored_name_of(token: Seq<char>, extension: Option<Seq<char>>) -> Seq<char> {
    "img"@ + token + "."@ + match extension { Some(e) => e, None => "png"@ }
}

pub fn new_stored_name(token: &str, extension: Option<String>) -> (r: String)
    ensures
        r@ == stored_name_of(token@, opt_string_view(extension)),
{
    let mut v = chars_of("img");
    push_str(&mut v, token);
    push_str(&mut v, ".");
    match extension {
        Some(e) => push_str(&mut v, e.as_str()),
        None => push_str(&mut v, "png"),
    }
    string_of(&v)
}

// ---------------------------------------------------------------------------
// Renaming restored attachments in the texts
// ---------------------------------------------------------------------------

/// A text with every old stored name replaced by the new one, in the order of
/// the attachments; an attachment without a stored name renames nothing.
pub open spec fn renamed(s: Seq<char>, renames: Seq<(Seq<char>, Seq<char>)>) -> Seq<char>
    decreases renames.len(),
{
    if renames.len() == 0 {
        s
    } else {
        let prev = renamed(s, renames.drop_last());
        let r = renames.last();
        if r.0.len() > 0 { replace_all(prev, r.0, r.1) } else { prev }
    }
}

pub open spec fn renames_view(r: Seq<(String, String)>) -> Seq<(Seq<char>, Seq<char>)> {
    r.map_values(|p: (String, String)| (p.0@, p.1@))
}

pub fn rename_in(s: &str, renames: &Vec<(String, String)>) -> (r: String)
    ensures
        r@ == renamed(s@, renames_view(renames@)),
{
    let ghost rv = renames_view(renames@);
    let mut cur = chars_of(s);
    let mut i: usize = 0;
    while i < renames.len()
        invariant
            i <= renames.len(),
            rv == renames_view(renames@),
            cur@ == renamed(s@, rv.take(i as int)),
        decreases renames.len() - i,
    {
        proof {
            assert(rv.take(i + 1).drop_last() =~= rv.take(i as int));
            assert(rv.take(i + 1).last() == (renames@[i as int].0@, renames@[i as int].1@));
        }
        let old_name = chars_of(renames[i].0.as_str());
        if old_name.len() > 0 {
            cur = replace_chars(&cur, &old_name, &chars_of(renames[i].1.as_str()));
        }
        i += 1;
    }
    assert(rv.take(renames.len() as int) =~= rv);
    string_of(&cur)
}

/// Law: renaming with one list and then another is renaming with the two
/// lists one after the other; every rename in a list is applied, in turn.
pub proof fn lemma_renames_apply_in_turn(s: Seq<char>, first: Seq<(Seq<char>, Seq<char>)>, then: Seq<(Seq<char>, Seq<char>)>)
    ensures
        renamed(s, first + then) == renamed(renamed(s, first), then),
    decreases then.len(),
{
    if then.len() == 0 {
        assert(first + then =~= first);
    } else {
        assert((first + then).drop_last() =~= first + then.drop_last());
        assert((first + then).last() == then.last());
        lemma_renames_apply_in_turn(s, first, then.drop_last());
    }
}

/// Law: one rename replaces every occurrence of the old stored name by the new
/// one (an attachment without a stored name changes nothing), so where the text
/// names the old file, the renamed text names the new one.
pub proof fn lemma_one_rename(s: Seq<char>, old_name: Seq<char>, new_name: Seq<char>)
    ensures
        renamed(s, seq![(old_name, new_name)]) == if old_name.len() > 0 { replace_all(s, old_name, new_name) } else { s },
        old_name.len() > 0 && crate::text::contains(s, old_name) ==> crate::text::contains(
            renamed(s, seq![(old_name, new_name)]),
            new_name,
        ),
{
    let rs = seq![(old_name, new_name)];
    assert(rs.drop_last() =~= Seq::<(Seq<char>, Seq<char>)>::empty());
    assert(renamed(s, rs.drop_last()) == s);
    assert(rs.last() == (old_name, new_name));
    if old_name.len() > 0 && crate::text::contains(s, old_name) {
        lemma_replacement_names_the_new_text(s, old_name, new_name);
    }
}

proof fn lemma_contains_after_first(s: Seq<char>, f: Seq<char>)
    requires
        f.len() > 0,
        crate::text::contains(s, f),
        !crate::text::has_prefix(s, f),
    ensures
        s.len() > 0,
        crate::text::contains(s.drop_first(), f),
{
    crate::text::lemma_find_from(s, f, 0);
    let k = crate::text::find_from(s, f, 0)->Some_0;
    if k == 0 {
        assert(s.take(f.len() as int) =~= s.subrange(0, f.len() as int));
    }
    assert(k > 0);
    let d = s.drop_first();
    assert(d.subrange(k - 1, k - 1 + f.len()) =~= s.subrange(k, k + f.len()));
    assert(crate::text::occurs_at(d, f, k - 1));
    crate::text::lemma_find_from(d, f, 0);
}

proof fn lemma_contains_prefix_of(a: Seq<char>, b: Seq<char>, t: Seq<char>)
    requires
        crate::text::contains(b, t),
    ensures
        crate::text::contains(a + b, t),
{
    crate::text::lemma_find_from(b, t, 0);
    let k = crate::text::find_from(b, t, 0)->Some_0;
    assert((a + b).subrange(a.len() + k, a.len() + k + t.len()) =~= b.subrange(k, k + t.len()));
    assert(crate::text::occurs_at(a + b, t, a.len() + k));
    crate::text::lemma_find_from(a + b, t, 0);
}

proof fn lemma_replacement_names_the_new_text(s: Seq<char>, f: Seq<char>, t: Seq<char>)
    requires
        f.len() > 0,
        crate::text::contains(s, f),
    ensures
        crate::text::contains(replace_all(s, f, t), t),
    decreases s.len(),
{
    crate::text::lemma_find_from(s, f, 0);
    if crate::text::has_prefix(s, f) {
        let rest = replace_all(s.skip(f.len() as int), f, t);
        assert(replace_all(s, f, t) == t + rest);
        assert(crate::text::occurs_at(t + rest, t, 0)) by {
            assert((t + rest).subrange(0, t.len() as int) =~= t);
        }
        crate::text::lemma_find_from(t + rest, t, 0);
    } else {
        lemma_contains_after_first(s, f);
        lemma_replacement_names_the_new_text(s.drop_first(), f, t);
        lemma_contains_prefix_of(seq![s[0]], replace_all(s.drop_first(), f, t), t);
    }
}

/// The two-column statement of an imported problem: its own, or the statement
/// where it has none.
pub open spec fn two_column_or_statement(two_column: Seq<char>, statement: Seq<char>) -> Seq<char> {
    if trim(two_column).len() == 0 { statement } else { two_column }
}

/// The texts of an imported problem once its attachments are restored.
#[derive(Clone, Debug)]
pub struct ImportedTexts {
    pub statement: String,
    pub statement_two_column: String,
    pub answer: String,
    pub explanation: String,
}

pub fn imported_texts(p: &BankProblem, renames: &Vec<(String, String)>) -> (r: ImportedTexts)
    ensures
        r.statement@ == renamed(p.statement_latex@, renames_view(renames@)),
        r.statement_two_column@ == renamed(
            two_column_or_statement(p.statement_latex_two_column@, p.statement_latex@),
            renames_view(renames@),
        ),
        r.answer@ == renamed(p.answer_latex@, renames_view(renames@)),
        r.explanation@ == renamed(p.explanation_latex@, renames_view(renames@)),
{
    let two = if trim_of(&chars_of(p.statement_latex_two_column.as_str())).len() == 0 {
        rename_in(p.statement_latex.as_str(), renames)
    } else {
        rename_in(p.statement_latex_two_column.as_str(), renames)
    };
    ImportedTexts {
        statement: rename_in(p.statement_latex.as_str(), renames),
        statement_two_column: two,
        answer: rename_in(p.answer_latex.as_str(), renames),
        explanation: rename_in(p.explanation_latex.as_str(), renames),
    }
}

/// A solution variant with the restored attachments renamed in its solution,
/// explanation, solution steps and explanation sections; all else as it was.
pub open spec fn renamed_variant(v: SavedVariant, renames: Seq<(Seq<char>, Seq<char>)>) -> SavedVariant {
    SavedVariant {
        solution: renamed(v.solution, renames),
        explanation: match v.explanation {
            Some(e) => Some(renamed(e, renames)),
            None => None,
        },
        solution_blocks: v.solution_blocks.map_values(|c: Seq<char>| renamed(c, renames)),
        explanation_sections: v.explanation_sections.map_values(|c: Seq<char>| renamed(c, renames)),
        ..v
    }
}

fn rename_variant(v: ProblemSolutionVariant, renames: &Vec<(String, String)>) -> (r: ProblemSolutionVariant)
    ensures
        saved_view(r) == renamed_variant(saved_view(v), renames_view(renames@)),
{
    let ghost rv = renames_view(renames@);
    let ghost sv = saved_view(v);
    let ProblemSolutionVariant {
        id,
        role,
        strategy,
        solution,
        explanation,
        plan,
        verification,
        solution_blocks,
        explanation_sections,
        flow_blocks,
    } = v;
    let solution = rename_in(solution.as_str(), renames);
    let explanation = match explanation {
        Some(e) => Some(rename_in(e.as_str(), renames)),
        None => None,
    };
    let mut blocks: Vec<SolutionBlock> = Vec::new();
    let mut i: usize = 0;
    while i < solution_blocks.len()
        invariant
            i <= solution_blocks.len(),
            rv == renames_view(renames@),
            blocks@.map_values(|b: SolutionBlock| b.content@)
                == solution_blocks@.take(i as int).map_values(|b: SolutionBlock| renamed(b.content@, rv)),
        decreases solution_blocks.len() - i,
    {
        let ghost before = blocks@;
        let c = rename_in(solution_blocks[i].content.as_str(), renames);
        blocks.push(SolutionBlock { content: c });
        proof {
            let f = |b: SolutionBlock| renamed(b.content@, rv);
            assert(solution_blocks@.take(i + 1) =~= solution_blocks@.take(i as int).push(solution_blocks@[i as int]));
            assert(solution_blocks@.take(i + 1).map_values(f) =~= solution_blocks@.take(i as int).map_values(f).push(f(solution_blocks@[i as int])));
            assert(blocks@.map_values(|b: SolutionBlock| b.content@) =~= before.map_values(|b: SolutionBlock| b.content@).push(c@));
        }
        i += 1;
    }
    let mut sections: Vec<ExplanationSection> = Vec::new();
    let mut j: usize = 0;
    while j < explanation_sections.len()
        invariant
            j <= explanation_sections.len(),
            rv == renames_view(renames@),
            sections@.map_values(|s: ExplanationSection| s.content@)
                == explanation_sections@.take(j as int).map_values(|s: ExplanationSection| renamed(s.content@, rv)),
        decreases explanation_sections.len() - j,
    {
        let ghost before = sections@;
        let c = rename_in(explanation_sections[j].content.as_str(), renames);
        sections.push(ExplanationSection { content: c });
        proof {
            let f = |s: ExplanationSection| renamed(s.content@, rv);
            assert(explanation_sections@.take(j + 1) =~= explanation_sections@.take(j as int).push(explanation_sections@[j as int]));
            assert(explanation_sections@.take(j + 1).map_values(f) =~= explanation_sections@.take(j as int).map_values(f).push(f(explanation_sections@[j as int])));
            assert(sections@.map_values(|s: ExplanationSection| s.content@) =~= before.map_values(|s: ExplanationSection| s.content@).push(c@));
        }
        j += 1;
    }
    proof {
        assert(solution_blocks@.take(solution_blocks.len() as int) =~= solution_blocks@);
        assert(explanation_sections@.take(explanation_sections.len() as int) =~= explanation_sections@);
        assert(blocks@.map_values(|b: SolutionBlock| b.content@) =~= sv.solution_blocks.map_values(|c: Seq<char>| renamed(c, rv)));
        assert(sections@.map_values(|s: ExplanationSection| s.content@) =~= sv.explanation_sections.map_values(
            |c: Seq<char>| renamed(c, rv),
        ));
    }
    ProblemSolutionVariant {
        id,
        role,
        strategy,
        solution,
        explanation,
        plan,
        verification,
        solution_blocks: blocks,
        explanation_sections: sections,
        flow_blocks,
    }
}

/// The solution variants of an imported problem with its restored attachments renamed.
pub fn renamed_variants(variants: Vec<ProblemSolutionVariant>, renames: &Vec<(String, String)>) -> (r: Vec<ProblemSolutionVariant>)
    ensures
        r.len() == variants.len(),
        forall|i: int| 0 <= i < r.len() ==> saved_view(#[trigger] r@[i]) == renamed_variant(saved_view(variants@[i]), renames_view(renames@)),
{
    let ghost vs = variants@;
    let n = variants.len();
    let mut rest = variants;
    let mut out: Vec<ProblemSolutionVariant> = Vec::new();
    let mut k: usize = 0;
    while k < n
        invariant
            k <= n,
            vs.len() == n,
            rest@ == vs.skip(k as int),
            out.len() == k,
            forall|i: int| 0 <= i < k ==> saved_view(#[trigger] out@[i]) == renamed_variant(saved_view(vs[i]), renames_view(renames@)),
        decreases n - k,
    {
        let ghost pre = rest@;
        let v = rest.remove(0);
        assert(v == vs[k as int]) by {
            assert(pre[0] == vs.skip(k as int)[0]);
        }
        assert(rest@ =~= vs.skip(k + 1));
        out.push(rename_variant(v, renames));
        k += 1;
    }
    out
}

// ---------------------------------------------------------------------------
// Import bookkeeping
// ---------------------------------------------------------------------------

/// The format of a bank file from the version it names.
pub fn bank_format(version: u64) -> (r: Result<u64, String>)
    ensures
        (version == 1 || version == 2) ==> r == Ok::<u64, String>(version),
        !(version == 1 || version == 2) ==> (r matches Err(e) && e@ == UNSUPPORTED_VERSION@),
{
    if version == 1 || version == 2 {
        Ok(version)
    } else {
        Err(string_of(&chars_of(UNSUPPORTED_VERSION)))
    }
}

/// A file of the second format must say so twice.
pub fn check_v2_header(format_version: u32, kyozai_kobo_bank: u32) -> (r: Result<(), String>)
    ensures
        (format_version == 2 && kyozai_kobo_bank == 2) ==> r is Ok,
        !(format_version == 2 && kyozai_kobo_bank == 2) ==> (r matches Err(e) && e@ == UNSUPPORTED_V2@),
{
    if format_version != 2 || kyozai_kobo_bank != 2 {
        Err(string_of(&chars_of(UNSUPPORTED_V2)))
    } else {
        Ok(())
    }
}

/// The name a folder is imported under: trimmed, and not empty.
pub fn imported_node_name(name: &str) -> (r: Result<String, String>)
    ensures
        trim(name@).len() > 0 ==> (r matches Ok(n) && n@ == trim(name@)),
        trim(name@).len() == 0 ==> (r matches Err(e) && e@ == EMPTY_NODE_NAME@),
{
    let t = trim_of(&chars_of(name));
    if t.len() == 0 {
        Err(string_of(&chars_of(EMPTY_NODE_NAME)))
    } else {
        Ok(string_of(&t))
    }
}

/// Nothing created yet.
pub fn empty_import_result() -> (r: ImportBankResult)
    ensures
        r.nodes_created == 0 && r.subjects_created == 0 && r.fields_created == 0 && r.units_created == 0
            && r.problems_imported == 0,
{
    ImportBankResult { nodes_created: 0, subjects_created: 0, fields_created: 0, units_created: 0, problems_imported: 0 }
}

/// Counts a folder created at `depth` (0 for a subject, 1 for a field, 2 for a unit).
pub fn count_created_node(r: ImportBankResult, depth: usize) -> (out: ImportBankResult)
    requires
        r.nodes_created < i64::MAX,
        r.subjects_created < i64::MAX,
        r.fields_created < i64::MAX,
        r.units_created < i64::MAX,
    ensures
        out.nodes_created == r.nodes_created + 1,
        out.subjects_created == r.subjects_created + (if depth == 0 { 1int } else { 0 }),
        out.fields_created == r.fields_created + (if depth == 1 { 1int } else { 0 }),
        out.units_created == r.units_created + (if depth == 2 { 1int } else { 0 }),
        out.problems_imported == r.problems_imported,
{
    ImportBankResult {
        nodes_created: r.nodes_created + 1,
        subjects_created: if depth == 0 { r.subjects_created + 1 } else { r.subjects_created },
        fields_created: if depth == 1 { r.fields_created + 1 } else { r.fields_created },
        units_created: if depth == 2 { r.units_created + 1 } else { r.units_created },
        problems_imported: r.problems_imported,
    }
}

/// An import of the first format counts every subject, field and unit it created as a folder.
pub fn total_v1_nodes(r: ImportBankResult) -> (out: ImportBankResult)
    requires
        r.subjects_created + r.fields_created + r.units_created <= i64::MAX,
        r.subjects_created >= 0 && r.fields_created >= 0 && r.units_created >= 0,
    ensures
        out.nodes_created == r.subjects_created + r.fields_created + r.units_created,
        out.subjects_created == r.subjects_created,
        out.fields_created == r.fields_created,
        out.units_created == r.units_created,
        out.problems_imported == r.problems_imported,
{
    ImportBankResult { nodes_created: r.subjects_created + r.fields_created + r.units_created, ..r }
}

// ---------------------------------------------------------------------------
// Export scopes
// ---------------------------------------------------------------------------

/// Where an export of the second format starts.
#[derive(Clone, Debug, PartialEq, Eq)]
pub enum ExportScope {
    /// Every top folder; `prune` drops folders left without the selected problems.
    Roots { prune: bool },
    /// One folder.
    Node(i64),
    /// The folder that stands for a subject, field or unit of the first format.
    Legacy { kind: String, id: i64 },
}

pub open spec fn scope_refusal(kind: Seq<char>, id: Option<i64>) -> Option<Seq<char>> {
    if kind == "all"@ || kind == "problems"@ {
        None
    } else if kind == "node"@ || kind == "subject"@ || kind == "field"@ || kind == "unit"@ {
        if id is None { Some(NEED_ID@) } else { None }
    } else {
        Some(UNKNOWN_SCOPE@ + kind)
    }
}

pub fn export_scope(scope_kind: &str, id: Option<i64>) -> (r: Result<ExportScope, String>)
    ensures
        match scope_refusal(scope_kind@, id) {
            Some(m) => r matches Err(e) && e@ == m,
            None => r matches Ok(s) && match s {
                ExportScope::Roots { prune } => (scope_kind@ == "all"@ || scope_kind@ == "problems"@)
                    && prune == (scope_kind@ == "problems"@),
                ExportScope::Node(n) => scope_kind@ == "node"@ && id == Some(n),
                ExportScope::Legacy { kind, id: n } => kind@ == scope_kind@ && id == Some(n)
                    && (scope_kind@ == "subject"@ || scope_kind@ == "field"@ || scope_kind@ == "unit"@),
            },
        },
{
    proof {
        reveal_strlit("all");
        reveal_strlit("problems");
        reveal_strlit("node");
        reveal_strlit("subject");
        reveal_strlit("field");
        reveal_strlit("unit");
        assert("all"@ != "problems"@) by {
            assert("all"@.len() != "problems"@.len());
        }
    }
    let k = chars_of(scope_kind);
    if is_str(&k, "all") {
        Ok(ExportScope::Roots { prune: false })
    } else if is_str(&k, "problems") {
        Ok(ExportScope::Roots { prune: true })
    } else if is_str(&k, "node") {
        match id {
            Some(n) => Ok(ExportScope::Node(n)),
            None => Err(string_of(&chars_of(NEED_ID))),
        }
    } else if is_str(&k, "subject") || is_str(&k, "field") || is_str(&k, "unit") {
        match id {
            Some(n) => Ok(ExportScope::Legacy { kind: string_of(&k), id: n }),
            None => Err(string_of(&chars_of(NEED_ID))),
        }
    } else {
        let mut e = chars_of(UNKNOWN_SCOPE);
        push_all(&mut e, &k);
        Err(string_of(&e))
    }
}

/// The selection of problems an export is limited to: none when none or an empty list is given.
pub fn selection_of(problem_ids: Option<Vec<i64>>) -> (r: Option<Vec<i64>>)
    ensures
        match problem_ids {
            Some(v) => if v.len() > 0 { r == Some(v) } else { r is None },
            None => r is None,
        },
{
    match problem_ids {
        Some(v) => if v.len() > 0 { Some(v) } else { None },
        None => None,
    }
}

pub open spec fn in_selection(sel: Seq<i64>) -> spec_fn(i64) -> bool {
    |i: i64| sel.contains(i)
}

/// The problems of a folder that an export takes, in their order.
pub open spec fn selected_ids(all: Seq<i64>, only: Option<Seq<i64>>) -> Seq<i64> {
    match only {
        Some(sel) => all.filter(in_selection(sel)),
        None => all,
    }
}

pub fn selected_problem_ids(all: &Vec<i64>, only: &Option<Vec<i64>>) -> (r: Vec<i64>)
    ensures
        r@ == selected_ids(all@, match only { Some(v) => Some(v@), None => None }),
{
    match only {
        None => {
            let r = all.clone();
            assert(r@ =~= all@);
            r
        },
        Some(sel) => {
            let ghost pred = in_selection(sel@);
            let mut out: Vec<i64> = Vec::new();
            let mut k: usize = 0;
            while k < all.len()
                invariant
                    k <= all.len(),
                    pred == in_selection(sel@),
                    out@ == all@.take(k as int).filter(pred),
                decreases all.len() - k,
            {
                proof {
                    all@.take(k as int).lemma_filter_push(all@[k as int], pred);
                    assert(all@.take(k as int).push(all@[k as int]) =~= all@.take(k + 1));
                }
                proof {
                    if k == 0 {
                        reveal(Seq::filter);
                    }
                }
                let x = all[k];
                let mut found = false;
                let mut j: usize = 0;
                while j < sel.len()
                    invariant
                        j <= sel.len(),
                        found == exists|m: int| 0 <= m < j && sel@[m] == x,
                    decreases sel.len() - j,
                {
                    if sel[j] == x {
                        found = true;
                    }
                    j += 1;
                }
                if found {
                    out.push(x);
                }
                k += 1;
            }
            assert(all@.take(all.len() as int) =~= all@);
            out
        },
    }
}

/// A folder as exported; where empty folders are dropped, one without problems
/// and subfolders is left out.
pub fn node_export(name: String, problems: Vec<BankProblem>, children: Vec<BankNodeExport>, prune: bool) -> (r: Option<BankNodeExport>)
    ensures
        (prune && problems.len() == 0 && children.len() == 0) ==> r is None,
        !(prune && problems.len() == 0 && children.len() == 0) ==> (r matches Some(n) && n.name == name
            && n.problems@ == problems@ && n.children@ == children@),
{
    if prune && problems.len() == 0 && children.len() == 0 {
        None
    } else {
        Some(BankNodeExport { name, problems, children })
    }
}

// ---------------------------------------------------------------------------
// Grouping an export of the first format
// ---------------------------------------------------------------------------

pub struct FieldModel {
    pub name: Seq<char>,
    pub units: Seq<BankUnit>,
}

pub struct SubjectModel {
    pub name: Seq<char>,
    pub fields: Seq<FieldModel>,
}

pub open spec fn field_model(f: BankField) -> FieldModel {
    FieldModel { name: f.name@, units: f.units@ }
}

pub open spec fn fields_model(fs: Seq<BankField>) -> Seq<FieldModel> {
    fs.map_values(|f: BankField| field_model(f))
}

pub open spec fn subject_model(s: BankSubject) -> SubjectModel {
    SubjectModel { name: s.name@, fields: fields_model(s.fields@) }
}

pub open spec fn subjects_model(ss: Seq<BankSubject>) -> Seq<SubjectModel> {
    ss.map_values(|s: BankSubject| subject_model(s))
}

pub open spec fn field_names_distinct(fs: Seq<FieldModel>) -> bool {
    forall|i: int, j: int| 0 <= i < j < fs.len() ==> (#[trigger] fs[i]).name != (#[trigger] fs[j]).name
}

/// No two subjects share a name, and no two fields of a subject do.
pub open spec fn grouping_ok(g: Seq<SubjectModel>) -> bool {
    &&& forall|i: int, j: int| 0 <= i < j < g.len() ==> (#[trigger] g[i]).name != (#[trigger] g[j]).name
    &&& forall|i: int| 0 <= i < g.len() ==> field_names_distinct((#[trigger] g[i]).fields)
}

/// A unit added to the field of that name, or to a new field at the end.
pub open spec fn add_to_fields(fs: Seq<FieldModel>, f: Seq<char>, u: BankUnit) -> Seq<FieldModel> {
    if exists|j: int| 0 <= j < fs.len() && (#[trigger] fs[j]).name == f {
        let j = choose|j: int| 0 <= j < fs.len() && (#[trigger] fs[j]).name == f;
        fs.update(j, FieldModel { name: fs[j].name, units: fs[j].units.push(u) })
    } else {
        fs.push(FieldModel { name: f, units: seq![u] })
    }
}

/// A unit added under the subject and field of those names, made where missing.
pub open spec fn add_unit(g: Seq<SubjectModel>, s: Seq<char>, f: Seq<char>, u: BankUnit) -> Seq<SubjectModel> {
    if exists|i: int| 0 <= i < g.len() && (#[trigger] g[i]).name == s {
        let i = choose|i: int| 0 <= i < g.len() && (#[trigger] g[i]).name == s;
        g.update(i, SubjectModel { name: g[i].name, fields: add_to_fields(g[i].fields, f, u) })
    } else {
        g.push(SubjectModel { name: s, fields: seq![FieldModel { name: f, units: seq![u] }] })
    }
}

/// Units, each with its subject and field names, grouped in the order met;
/// with `prune`, units without problems are left out.
pub open spec fn grouped(rows: Seq<(String, String, BankUnit)>, prune: bool) -> Seq<SubjectModel>
    decreases rows.len(),
{
    if rows.len() == 0 {
        seq![]
    } else {
        let g = grouped(rows.drop_last(), prune);
        let r = rows.last();
        if prune && r.2.problems.len() == 0 { g } else { add_unit(g, r.0@, r.1@, r.2) }
    }
}

proof fn lemma_add_unit_ok(g: Seq<SubjectModel>, s: Seq<char>, f: Seq<char>, u: BankUnit)
    requires
        grouping_ok(g),
    ensures
        grouping_ok(add_unit(g, s, f, u)),
{
    if exists|i: int| 0 <= i < g.len() && (#[trigger] g[i]).name == s {
        let i = choose|i: int| 0 <= i < g.len() && (#[trigger] g[i]).name == s;
        let fs = g[i].fields;
        let nf = add_to_fields(fs, f, u);
        assert(field_names_distinct(nf)) by {
            if exists|j: int| 0 <= j < fs.len() && (#[trigger] fs[j]).name == f {
                let j = choose|j: int| 0 <= j < fs.len() && (#[trigger] fs[j]).name == f;
                assert forall|a: int, b: int| 0 <= a < b < nf.len() implies (#[trigger] nf[a]).name != (#[trigger] nf[b]).name by {
                    assert(nf[a].name == fs[a].name && nf[b].name == fs[b].name);
                }
            } else {
                assert forall|a: int, b: int| 0 <= a < b < nf.len() implies (#[trigger] nf[a]).name != (#[trigger] nf[b]).name by {
                    if b == fs.len() {
                        assert(nf[a] == fs[a]);
                    } else {
                        assert(nf[a] == fs[a] && nf[b] == fs[b]);
                    }
                }
            }
        }
        let ng = add_unit(g, s, f, u);
        assert forall|a: int| 0 <= a < ng.len() implies field_names_distinct((#[trigger] ng[a]).fields) by {
            if a != i {
                assert(ng[a] == g[a]);
            }
        }
        assert forall|a: int, b: int| 0 <= a < b < ng.len() implies (#[trigger] ng[a]).name != (#[trigger] ng[b]).name by {
            assert(ng[a].name == g[a].name && ng[b].name == g[b].name);
        }
    } else {
        let ng = add_unit(g, s, f, u);
        assert forall|a: int| 0 <= a < ng.len() implies field_names_distinct((#[trigger] ng[a]).fields) by {
            if a < g.len() {
                assert(ng[a] == g[a]);
            }
        }
        assert forall|a: int, b: int| 0 <= a < b < ng.len() implies (#[trigger] ng[a]).name != (#[trigger] ng[b]).name by {
            if b < g.len() {
                assert(ng[a] == g[a] && ng[b] == g[b]);
            } else {
                assert(ng[a] == g[a]);
            }
        }
    }
}

/// Law: a grouped export has no two subjects of one name and no two fields of
/// one name within a subject.
pub proof fn lemma_grouped_names_distinct(rows: Seq<(String, String, BankUnit)>, prune: bool)
    ensures
        grouping_ok(grouped(rows, prune)),
    decreases rows.len(),
{
    if rows.len() > 0 {
        lemma_grouped_names_distinct(rows.drop_last(), prune);
        let r = rows.last();
        if !(prune && r.2.problems.len() == 0) {
            lemma_add_unit_ok(grouped(rows.drop_last(), prune), r.0@, r.1@, r.2);
        }
    }
}

/// How many units the fields hold.
pub open spec fn field_unit_count(fs: Seq<FieldModel>) -> nat
    decreases fs.len(),
{
    if fs.len() == 0 { 0 } else { field_unit_count(fs.drop_last()) + fs.last().units.len() }
}

/// How many units a grouped export holds.
pub open spec fn unit_count(g: Seq<SubjectModel>) -> nat
    decreases g.len(),
{
    if g.len() == 0 { 0 } else { unit_count(g.drop_last()) + field_unit_count(g.last().fields) }
}

/// How many of the rows an export keeps.
pub open spec fn kept_rows(rows: Seq<(String, String, BankUnit)>, prune: bool) -> nat
    decreases rows.len(),
{
    if rows.len() == 0 {
        0
    } else {
        kept_rows(rows.drop_last(), prune) + (if prune && rows.last().2.problems.len() == 0 { 0nat } else { 1nat })
    }
}

proof fn lemma_field_count_update(fs: Seq<FieldModel>, j: int, x: FieldModel)
    requires
        0 <= j < fs.len(),
    ensures
        field_unit_count(fs.update(j, x)) + fs[j].units.len() == field_unit_count(fs) + x.units.len(),
    decreases fs.len(),
{
    let u = fs.update(j, x);
    assert(u.drop_last() =~= if j == fs.len() - 1 { fs.drop_last() } else { fs.drop_last().update(j, x) });
    if j < fs.len() - 1 {
        lemma_field_count_update(fs.drop_last(), j, x);
    }
}

proof fn lemma_unit_count_update(g: Seq<SubjectModel>, i: int, x: SubjectModel)
    requires
        0 <= i < g.len(),
    ensures
        unit_count(g.update(i, x)) + field_unit_count(g[i].fields) == unit_count(g) + field_unit_count(x.fields),
    decreases g.len(),
{
    let u = g.update(i, x);
    assert(u.drop_last() =~= if i == g.len() - 1 { g.drop_last() } else { g.drop_last().update(i, x) });
    if i < g.len() - 1 {
        lemma_unit_count_update(g.drop_last(), i, x);
    }
}

proof fn lemma_add_unit_counts(g: Seq<SubjectModel>, s: Seq<char>, f: Seq<char>, u: BankUnit)
    ensures
        unit_count(add_unit(g, s, f, u)) == unit_count(g) + 1,
{
    if exists|i: int| 0 <= i < g.len() && (#[trigger] g[i]).name == s {
        let i = choose|i: int| 0 <= i < g.len() && (#[trigger] g[i]).name == s;
        let fs = g[i].fields;
        let nf = add_to_fields(fs, f, u);
        assert(field_unit_count(nf) == field_unit_count(fs) + 1) by {
            if exists|j: int| 0 <= j < fs.len() && (#[trigger] fs[j]).name == f {
                let j = choose|j: int| 0 <= j < fs.len() && (#[trigger] fs[j]).name == f;
                lemma_field_count_update(fs, j, FieldModel { name: fs[j].name, units: fs[j].units.push(u) });
            } else {
                assert(nf.drop_last() =~= fs);
            }
        }
        lemma_unit_count_update(g, i, SubjectModel { name: g[i].name, fields: nf });
    } else {
        let ng = add_unit(g, s, f, u);
        assert(ng.drop_last() =~= g);
        let nf = seq![FieldModel { name: f, units: seq![u] }];
        assert(nf.drop_last() =~= Seq::<FieldModel>::empty());
        assert(field_unit_count(Seq::<FieldModel>::empty()) == 0);
        assert(nf.last().units.len() == 1);
        assert(field_unit_count(nf) == 1);
        assert(ng.last().fields == nf);
    }
}

/// Law: grouping an export loses no unit: the export holds exactly the units
/// of the rows it keeps.
pub proof fn lemma_grouped_keeps_every_unit(rows: Seq<(String, String, BankUnit)>, prune: bool)
    ensures
        unit_count(grouped(rows, prune)) == kept_rows(rows, prune),
    decreases rows.len(),
{
    if rows.len() > 0 {
        lemma_grouped_keeps_every_unit(rows.drop_last(), prune);
        let r = rows.last();
        if !(prune && r.2.problems.len() == 0) {
            lemma_add_unit_counts(grouped(rows.drop_last(), prune), r.0@, r.1@, r.2);
        }
    }
}

fn find_subject(subjects: &Vec<BankSubject>, name: &Vec<char>) -> (r: Option<usize>)
    ensures
        match r {
            Some(i) => i < subjects.len() && subjects@[i as int].name@ == name@,
            None => forall|i: int| 0 <= i < subjects.len() ==> (#[trigger] subjects@[i]).name@ != name@,
        },
{
    let mut i: usize = 0;
    while i < subjects.len()
        invariant
            i <= subjects.len(),
            forall|j: int| 0 <= j < i ==> (#[trigger] subjects@[j]).name@ != name@,
        decreases subjects.len() - i,
    {
        if eq_chars(&chars_of(subjects[i].name.as_str()), name) {
            return Some(i);
        }
        i += 1;
    }
    None
}

fn find_field(fields: &Vec<BankField>, name: &Vec<char>) -> (r: Option<usize>)
    ensures
        match r {
            Some(i) => i < fields.len() && fields@[i as int].name@ == name@,
            None => forall|i: int| 0 <= i < fields.len() ==> (#[trigger] fields@[i]).name@ != name@,
        },
{
    let mut i: usize = 0;
    while i < fields.len()
        invariant
            i <= fields.len(),
            forall|j: int| 0 <= j < i ==> (#[trigger] fields@[j]).name@ != name@,
        decreases fields.len() - i,
    {
        if eq_chars(&chars_of(fields[i].name.as_str()), name) {
            return Some(i);
        }
        i += 1;
    }
    None
}

fn add_unit_to_field_list(fields: Vec<BankField>, f: String, u: BankUnit) -> (r: Vec<BankField>)
    requires
        field_names_distinct(fields_model(fields@)),
    ensures
        fields_model(r@) == add_to_fields(fields_model(fields@), f@, u),
{
    let ghost fm = fields_model(fields@);
    let mut fields = fields;
    match find_field(&fields, &chars_of(f.as_str())) {
        Some(j) => {
            proof {
                assert(fm[j as int].name == f@);
                let c = choose|c: int| 0 <= c < fm.len() && (#[trigger] fm[c]).name == f@;
                if c != j {
                    if c < j {
                        assert(fm[c].name != fm[j as int].name);
                    } else {
                        assert(fm[j as int].name != fm[c].name);
                    }
                }
            }
            let mut fld = fields.remove(j);
            fld.units.push(u);
            let ghost mid = fields@;
            fields.insert(j, fld);
            assert(fields_model(fields@) =~= fm.update(j as int, FieldModel { name: fm[j as int].name, units: fm[j as int].units.push(u) })) by {
                assert forall|a: int| 0 <= a < fields@.len() implies #[trigger] fields_model(fields@)[a] == fm.update(j as int, FieldModel { name: fm[j as int].name, units: fm[j as int].units.push(u) })[a] by {
                    if a < j {
                        assert(fields@[a] == mid[a]);
                    } else if a > j {
                        assert(fields@[a] == mid[a - 1]);
                    }
                }
            }
            fields
        },
        None => {
            proof {
                assert(!exists|c: int| 0 <= c < fm.len() && (#[trigger] fm[c]).name == f@) by {
                    if exists|c: int| 0 <= c < fm.len() && (#[trigger] fm[c]).name == f@ {
                        let c = choose|c: int| 0 <= c < fm.len() && (#[trigger] fm[c]).name == f@;
                        assert(fields@[c].name@ != f@);
                    }
                }
            }
            let mut units: Vec<BankUnit> = Vec::new();
            units.push(u);
            fields.push(BankField { name: f, units });
            assert(fields_model(fields@) =~= fm.push(FieldModel { name: f@, units: seq![u] }));
            fields
        },
    }
}

/// The export of the first format: units with their subject and field names,
/// grouped by subject and then field, in the order the units come.
pub fn group_units(rows: Vec<(String, String, BankUnit)>, prune: bool) -> (r: Vec<BankSubject>)
    ensures
        subjects_model(r@) == grouped(rows@, prune),
{
    let ghost all = rows@;
    let n = rows.len();
    let mut rest = rows;
    let mut subjects: Vec<BankSubject> = Vec::new();
    let mut k: usize = 0;
    assert(all.take(0) =~= Seq::<(String, String, BankUnit)>::empty());
    assert(subjects_model(subjects@) =~= Seq::<SubjectModel>::empty());
    while k < n
        invariant
            k <= n,
            all.len() == n,
            rest@ == all.skip(k as int),
            subjects_model(subjects@) == grouped(all.take(k as int), prune),
        decreases n - k,
    {
        proof {
            assert(all.take(k + 1).drop_last() =~= all.take(k as int));
            lemma_grouped_names_distinct(all.take(k as int), prune);
        }
        let ghost pre = rest@;
        let row = rest.remove(0);
        assert(row == all[k as int]) by {
            assert(pre[0] == all.skip(k as int)[0]);
        }
        assert(rest@ =~= all.skip(k + 1));
        let ghost g = subjects_model(subjects@);
        let (s, f, u) = row;
        if prune && u.problems.len() == 0 {
            k += 1;
            continue;
        }
        match find_subject(&subjects, &chars_of(s.as_str())) {
            Some(i) => {
                proof {
                    assert(g[i as int].name == s@);
                    let c = choose|c: int| 0 <= c < g.len() && (#[trigger] g[c]).name == s@;
                    if c != i {
                        if c < i {
                            assert(g[c].name != g[i as int].name);
                        } else {
                            assert(g[i as int].name != g[c].name);
                        }
                    }
                }
                let subj = subjects.remove(i);
                let BankSubject { name, fields } = subj;
                let fields = add_unit_to_field_list(fields, f, u);
                let ghost mid = subjects@;
                subjects.insert(i, BankSubject { name, fields });
                assert(subjects_model(subjects@) =~= add_unit(g, s@, all[k as int].1@, all[k as int].2)) by {
                    let ng = add_unit(g, s@, all[k as int].1@, all[k as int].2);
                    assert forall|a: int| 0 <= a < subjects@.len() implies #[trigger] subjects_model(subjects@)[a] == ng[a] by {
                        if a < i {
                            assert(subjects@[a] == mid[a]);
                        } else if a > i {
                            assert(subjects@[a] == mid[a - 1]);
                        }
                    }
                }
            },
            None => {
                proof {
                    assert(!exists|c: int| 0 <= c < g.len() && (#[trigger] g[c]).name == s@) by {
                        if exists|c: int| 0 <= c < g.len() && (#[trigger] g[c]).name == s@ {
                            let c = choose|c: int| 0 <= c < g.len() && (#[trigger] g[c]).name == s@;
                            assert(subjects@[c].name@ != s@);
                        }
                    }
                }
                let mut units: Vec<BankUnit> = Vec::new();
                units.push(u);
                let mut fields: Vec<BankField> = Vec::new();
                fields.push(BankField { name: f, units });
                subjects.push(BankSubject { name: s, fields });
                assert(subjects_model(subjects@) =~= add_unit(g, all[k as int].0@, all[k as int].1@, all[k as int].2)) by {
                    assert(fields_model(subjects@.last().fields@) =~= seq![FieldModel { name: all[k as int].1@, units: seq![all[k as int].2] }]);
                }
            },
        }
        k += 1;
    }
    assert(all.take(n as int) =~= all);
    subjects
}

pub const BANK_UNITS_SELECT: &'static str = "SELECT s.name, f.name, u.name, u.id FROM units u JOIN fields f ON f.id=u.field_id JOIN subjects s ON s.id=f.subject_id";
pub const BANK_UNITS_ORDER: &'static str = " ORDER BY s.sort_order, s.id, f.sort_order, f.id, u.sort_order, u.id";

/// The statement that lists the units an export of the first format covers, and its one value if any.
pub open spec fn units_query(kind: Seq<char>, id: Option<i64>) -> Result<(Seq<char>, Option<i64>), Seq<char>> {
    if kind == "all"@ || kind == "problems"@ {
        Ok((BANK_UNITS_SELECT@ + BANK_UNITS_ORDER@, None))
    } else if kind == "subject"@ || kind == "field"@ || kind == "unit"@ {
        match id {
            None => Err(NEED_ID@),
            Some(n) => Ok((BANK_UNITS_SELECT@ + (if kind == "subject"@ { " WHERE s.id=?1"@ } else if kind == "field"@ {
                " WHERE f.id=?1"@
            } else {
                " WHERE u.id=?1"@
            }) + BANK_UNITS_ORDER@, Some(n))),
        }
    } else {
        Err(UNKNOWN_SCOPE@ + kind)
    }
}

pub fn bank_units_query(scope_kind: &str, id: Option<i64>) -> (r: Result<(String, Option<i64>), String>)
    ensures
        match units_query(scope_kind@, id) {
            Ok((q, p)) => r matches Ok((s, v)) && s@ == q && v == p,
            Err(m) => r matches Err(e) && e@ == m,
        },
{
    let k = chars_of(scope_kind);
    let mut q = chars_of(BANK_UNITS_SELECT);
    if is_str(&k, "all") || is_str(&k, "problems") {
        push_str(&mut q, BANK_UNITS_ORDER);
        return Ok((string_of(&q), None));
    }
    let clause = if is_str(&k, "subject") {
        " WHERE s.id=?1"
    } else if is_str(&k, "field") {
        " WHERE f.id=?1"
    } else if is_str(&k, "unit") {
        " WHERE u.id=?1"
    } else {
        let mut e = chars_of(UNKNOWN_SCOPE);
        push_all(&mut e, &k);
        return Err(string_of(&e));
    };
    match id {
        None => Err(string_of(&chars_of(NEED_ID))),
        Some(n) => {
            push_str(&mut q, clause);
            push_str(&mut q, BANK_UNITS_ORDER);
            Ok((string_of(&q), Some(n)))
        },
    }
}

} // verus!
