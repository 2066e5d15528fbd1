//! Data carried between the problem bank, pattern library and document renderer.
use vstd::prelude::*;

verus! {

/// One candidate strategy of a pattern, as stored with a snapshot.
#[derive(Clone, Debug, Default)]
pub struct PatternStrategyInput {
    pub id: Option<i64>,
    pub parent_strategy_id: Option<i64>,
    pub title: String,
    pub description: String,
    pub condition: String,
    pub reasoning: String,
    pub branch_label: String,
    pub sort_order: i64,
}

/// Classification values of a pattern.
#[derive(Clone, Debug, Default)]
pub struct PatternFacets {
    pub domains: Vec<String>,
    pub goals: Vec<String>,
    pub operations: Vec<String>,
    pub structures: Vec<String>,
    pub situations: Vec<String>,
}

/// A pattern frozen at one version, as embedded in a solution flow.
#[derive(Clone, Debug, Default)]
pub struct PatternSnapshot {
    pub version: i64,
    pub uuid: String,
    pub title: String,
    pub summary: String,
    pub pattern_type: String,
    pub situation: String,
    pub principle: String,
    pub cautions: String,
    pub examples: String,
    pub source_note: String,
    pub tags: Vec<String>,
    pub facets: PatternFacets,
    pub strategies: Vec<PatternStrategyInput>,
}

/// One block of a structured "how to think" flow.
#[derive(Clone, Debug, Default)]
pub struct SolutionFlowBlock {
    pub id: String,
    pub block_type: String,
    pub content: String,
    pub text: String,
    pub latex: String,
    pub pattern_id: Option<i64>,
    pub pattern_version: Option<i64>,
    pub snapshot: Option<PatternSnapshot>,
    pub used_strategy_ids: Vec<i64>,
}

/// The approach that a solution variant takes.
#[derive(Clone, Debug, Default)]
pub struct SolutionStrategy {
    pub id: String,
    pub title: String,
    pub summary: String,
    pub difficulty: Option<String>,
    pub answer_length: Option<String>,
    pub concepts: Vec<String>,
}

/// How a solution is planned: the strategy it follows and its outline.
#[derive(Clone, Debug, Default)]
pub struct SolutionPlan {
    pub strategy_id: String,
    pub outline: Vec<String>,
}

/// One finding of a check of a solution: `warning` or `error`, and what was found.
#[derive(Clone, Debug, Default)]
pub struct VerificationIssue {
    pub severity: String,
    pub message: String,
}

/// The findings of a check of a solution.
#[derive(Clone, Debug, Default)]
pub struct SolutionVerification {
    pub issues: Vec<VerificationIssue>,
}

/// A step of a written solution.
#[derive(Clone, Debug, Default)]
pub struct SolutionBlock {
    pub content: String,
}

/// A section of a written explanation.
#[derive(Clone, Debug, Default)]
pub struct ExplanationSection {
    pub content: String,
}

/// One way of solving a problem: the main solution or an alternative.
#[derive(Clone, Debug, Default)]
pub struct ProblemSolutionVariant {
    pub id: String,
    pub role: String,
    pub strategy: SolutionStrategy,
    pub solution: String,
    pub explanation: Option<String>,
    pub plan: Option<SolutionPlan>,
    pub verification: Option<SolutionVerification>,
    pub solution_blocks: Vec<SolutionBlock>,
    pub explanation_sections: Vec<ExplanationSection>,
    pub flow_blocks: Vec<SolutionFlowBlock>,
}

/// A file attached to a problem, part or template, frozen with the document.
#[derive(Clone, Debug, Default)]
pub struct SnapAttachment {
    pub file_name: String,
    pub stored_name: String,
}

/// One entry of a document, as the renderer reads it: a heading, free text,
/// a page break, a reusable part or a problem (with its frozen texts).
#[derive(Clone, Debug, Default)]
pub struct ProjectItem {
    pub item_type: String,
    pub content: String,
    pub heading_level: i64,
    pub heading_numbered: bool,
    pub snap_statement: String,
    pub snap_answer: String,
    pub snap_explanation: String,
    pub snap_difficulty_rank: Option<String>,
    pub snap_is_required: bool,
    pub snap_part_type: String,
    pub snap_part_output_target: String,
}

/// Layout and labelling choices of a document.
#[derive(Clone, Debug, Default)]
pub struct ProjectSettings {
    pub booklet_title: String,
    pub subtitle: String,
    pub target: String,
    pub date_str: String,
    pub header_left: String,
    pub header_right: String,
    pub number_format: String,
    pub show_name_field: bool,
    pub auto_number: bool,
    pub page_break_per_problem: bool,
    pub include_explanation: bool,
    pub two_column_mode: String,
    pub show_title: bool,
    pub show_header: bool,
    pub show_toc: bool,
    pub number_headings: bool,
    pub include_statement_in_answers: bool,
    pub box_statement_in_answers: bool,
    pub reset_numbering_per_chapter: bool,
    pub difficulty_display: String,
    pub required_display: String,
}

/// A candidate strategy of a stored pattern.
#[derive(Clone, Debug, Default)]
pub struct PatternStrategy {
    pub id: i64,
    pub pattern_id: i64,
    pub parent_strategy_id: Option<i64>,
    pub title: String,
    pub description: String,
    pub condition: String,
    pub reasoning: String,
    pub branch_label: String,
    pub sort_order: i64,
}

/// A stored pattern with what matching and editing read of it.
#[derive(Clone, Debug, Default)]
pub struct PatternFull {
    pub id: i64,
    pub uuid: String,
    pub title: String,
    pub summary: String,
    pub pattern_type: String,
    pub situation: String,
    pub principle: String,
    pub cautions: String,
    pub examples: String,
    pub source_note: String,
    pub tags: Vec<String>,
    pub facets: PatternFacets,
    pub strategies: Vec<PatternStrategy>,
    pub version: i64,
}

/// A candidate strategy as proposed.
#[derive(Clone, Debug, Default)]
pub struct PatternProposalStrategy {
    pub title: String,
    pub description: String,
    pub condition: String,
    pub reasoning: String,
    pub sort_order: i64,
}

/// A more general pattern that a proposal is said to specialise.
#[derive(Clone, Debug, Default)]
pub struct PatternParentHint {
    pub title: String,
    pub reason: String,
}

/// A pattern proposed from a problem, an image or a conversation, before it
/// is stored. (Its reusability score, a fraction, is kept by the caller.)
#[derive(Clone, Debug, Default)]
pub struct PatternProposal {
    pub proposal_id: String,
    pub raw_technique: String,
    pub title: String,
    pub pattern_type: String,
    pub summary: String,
    pub situation: String,
    pub principle: String,
    pub strategies: Vec<PatternProposalStrategy>,
    pub cautions: Vec<String>,
    pub domains: Vec<String>,
    pub goals: Vec<String>,
    pub operations: Vec<String>,
    pub structures: Vec<String>,
    pub situations: Vec<String>,
    pub tags: Vec<String>,
    pub source_type: String,
    pub matched_pattern_id: Option<i64>,
    pub matched_pattern_title: Option<String>,
    pub similarity_reason: String,
    pub action_recommendation: String,
    pub generalization_reason: String,
    pub specificity_level: i64,
    pub search_concepts: Vec<String>,
    pub is_overly_specific: bool,
    pub is_overly_general: bool,
    pub specificity_reason: String,
    pub possible_parent_pattern: Option<PatternParentHint>,
    pub generalization_decision: String,
    pub recommended_storage: String,
    pub generalization_pass_count: i64,
}

/// A full replacement of a pattern's editable fields.
#[derive(Clone, Debug, Default)]
pub struct PatternUpdate {
    pub id: i64,
    pub expected_version: Option<i64>,
    pub title: String,
    pub summary: String,
    pub pattern_type: String,
    pub situation: String,
    pub principle: String,
    pub cautions: String,
    pub examples: String,
    pub source_note: String,
    pub tags: Vec<String>,
    pub facets: PatternFacets,
    pub strategies: Vec<PatternStrategyInput>,
}

// ---------------------------------------------------------------------------
// Views
// ---------------------------------------------------------------------------

/// The facet lists of a pattern.
pub struct FacetsView {
    pub domains: Seq<String>,
    pub goals: Seq<String>,
    pub operations: Seq<String>,
    pub structures: Seq<String>,
    pub situations: Seq<String>,
}

impl View for PatternFacets {
    type V = FacetsView;

    open spec fn view(&self) -> FacetsView {
        FacetsView {
            domains: self.domains@,
            goals: self.goals@,
            operations: self.operations@,
            structures: self.structures@,
            situations: self.situations@,
        }
    }
}

/// A snapshot as values: its texts and its candidate strategies.
pub struct SnapshotView {
    pub version: i64,
    pub uuid: Seq<char>,
    pub title: Seq<char>,
    pub summary: Seq<char>,
    pub pattern_type: Seq<char>,
    pub situation: Seq<char>,
    pub principle: Seq<char>,
    pub cautions: Seq<char>,
    pub examples: Seq<char>,
    pub source_note: Seq<char>,
    pub tags: Seq<String>,
    pub facets: FacetsView,
    pub strategies: Seq<PatternStrategyInput>,
}

impl View for PatternSnapshot {
    type V = SnapshotView;

    open spec fn view(&self) -> SnapshotView {
        SnapshotView {
            version: self.version,
            uuid: self.uuid@,
            title: self.title@,
            summary: self.summary@,
            pattern_type: self.pattern_type@,
            situation: self.situation@,
            principle: self.principle@,
            cautions: self.cautions@,
            examples: self.examples@,
            source_note: self.source_note@,
            tags: self.tags@,
            facets: self.facets@,
            strategies: self.strategies@,
        }
    }
}

/// A flow block as values.
pub struct FlowBlock {
    pub id: Seq<char>,
    pub block_type: Seq<char>,
    pub content: Seq<char>,
    pub text: Seq<char>,
    pub latex: Seq<char>,
    pub pattern_id: Option<i64>,
    pub pattern_version: Option<i64>,
    pub snapshot: Option<SnapshotView>,
    pub used: Seq<i64>,
}

pub open spec fn snapshot_view(s: Option<PatternSnapshot>) -> Option<SnapshotView> {
    match s {
        Some(x) => Some(x@),
        None => None,
    }
}

impl View for SolutionFlowBlock {
    type V = FlowBlock;

    open spec fn view(&self) -> FlowBlock {
        FlowBlock {
            id: self.id@,
            block_type: self.block_type@,
            content: self.content@,
            text: self.text@,
            latex: self.latex@,
            pattern_id: self.pattern_id,
            pattern_version: self.pattern_version,
            snapshot: snapshot_view(self.snapshot),
            used: self.used_strategy_ids@,
        }
    }
}

/// The views of a sequence of blocks.
pub open spec fn flow_view(bs: Seq<SolutionFlowBlock>) -> Seq<FlowBlock> {
    bs.map_values(|b: SolutionFlowBlock| b@)
}

/// A block with the given type and one text field; all else empty.
pub open spec fn plain_block(id: Seq<char>, block_type: Seq<char>, content: Seq<char>, text: Seq<char>) -> FlowBlock {
    FlowBlock {
        id,
        block_type,
        content,
        text,
        latex: seq![],
        pattern_id: None,
        pattern_version: None,
        snapshot: None,
        used: seq![],
    }
}

/// A solution variant as values.
pub struct VariantView {
    pub id: Seq<char>,
    pub role: Seq<char>,
    pub solution: Seq<char>,
    pub explanation: Option<Seq<char>>,
    pub flow: Seq<FlowBlock>,
}

pub open spec fn opt_string_view(s: Option<String>) -> Option<Seq<char>> {
    match s {
        Some(x) => Some(x@),
        None => None,
    }
}

impl View for ProblemSolutionVariant {
    type V = VariantView;

    open spec fn view(&self) -> VariantView {
        VariantView {
            id: self.id@,
            role: self.role@,
            solution: self.solution@,
            explanation: opt_string_view(self.explanation),
            flow: flow_view(self.flow_blocks@),
        }
    }
}

pub open spec fn variants_view(vs: Seq<ProblemSolutionVariant>) -> Seq<VariantView> {
    vs.map_values(|v: ProblemSolutionVariant| v@)
}

// ---------------------------------------------------------------------------
// Copies with known contents
// ---------------------------------------------------------------------------

pub fn clone_strings(v: &Vec<String>) -> (r: Vec<String>)
    ensures
        r@ == v@,
{
    let mut r: Vec<String> = Vec::new();
    let mut i: usize = 0;
    while i < v.len()
        invariant
            i <= v.len(),
            r@ == v@.take(i as int),
        decreases v.len() - i,
    {
        r.push(v[i].clone());
        assert(r@ =~= v@.take(i + 1));
        i += 1;
    }
    assert(v@.take(v@.len() as int) =~= v@);
    r
}

pub fn clone_i64s(v: &Vec<i64>) -> (r: Vec<i64>)
    ensures
        r@ == v@,
{
    let mut r: Vec<i64> = Vec::new();
    let mut i: usize = 0;
    while i < v.len()
        invariant
            i <= v.len(),
            r@ == v@.take(i as int),
        decreases v.len() - i,
    {
        r.push(v[i]);
        assert(r@ =~= v@.take(i + 1));
        i += 1;
    }
    assert(v@.take(v@.len() as int) =~= v@);
    r
}

pub fn clone_facets(f: &PatternFacets) -> (r: PatternFacets)
    ensures
        r@ == f@,
{
    PatternFacets {
        domains: clone_strings(&f.domains),
        goals: clone_strings(&f.goals),
        operations: clone_strings(&f.operations),
        structures: clone_strings(&f.structures),
        situations: clone_strings(&f.situations),
    }
}

pub fn clone_strategy(s: &PatternStrategyInput) -> (r: PatternStrategyInput)
    ensures
        r == *s,
{
    PatternStrategyInput {
        id: s.id,
        parent_strategy_id: s.parent_strategy_id,
        title: s.title.clone(),
        description: s.description.clone(),
        condition: s.condition.clone(),
        reasoning: s.reasoning.clone(),
        branch_label: s.branch_label.clone(),
        sort_order: s.sort_order,
    }
}

pub fn clone_snapshot(s: &PatternSnapshot) -> (r: PatternSnapshot)
    ensures
        r@ == s@,
{
    let mut sts: Vec<PatternStrategyInput> = Vec::new();
    let mut i: usize = 0;
    while i < s.strategies.len()
        invariant
            i <= s.strategies.len(),
            sts@ == s.strategies@.take(i as int),
        decreases s.strategies.len() - i,
    {
        sts.push(clone_strategy(&s.strategies[i]));
        assert(sts@ =~= s.strategies@.take(i + 1));
        i += 1;
    }
    assert(s.strategies@.take(s.strategies@.len() as int) =~= s.strategies@);
    PatternSnapshot {
        version: s.version,
        uuid: s.uuid.clone(),
        title: s.title.clone(),
        summary: s.summary.clone(),
        pattern_type: s.pattern_type.clone(),
        situation: s.situation.clone(),
        principle: s.principle.clone(),
        cautions: s.cautions.clone(),
        examples: s.examples.clone(),
        source_note: s.source_note.clone(),
        tags: clone_strings(&s.tags),
        facets: clone_facets(&s.facets),
        strategies: sts,
    }
}

pub fn clone_block(b: &SolutionFlowBlock) -> (r: SolutionFlowBlock)
    ensures
        r@ == b@,
{
    SolutionFlowBlock {
        id: b.id.clone(),
        block_type: b.block_type.clone(),
        content: b.content.clone(),
        text: b.text.clone(),
        latex: b.latex.clone(),
        pattern_id: b.pattern_id,
        pattern_version: b.pattern_version,
        snapshot: match &b.snapshot {
            Some(s) => Some(clone_snapshot(s)),
            None => None,
        },
        used_strategy_ids: clone_i64s(&b.used_strategy_ids),
    }
}

} // verus!
