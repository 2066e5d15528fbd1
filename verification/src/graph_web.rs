//! Sessions that let the web editor insert a graph into a document: the
//! insertion point is fixed when the session is created, and a session is
//! completed only while it is pending, unexpired and nothing it points at has
//! changed. The caller reads and writes the sessions; this module decides.
use vstd::prelude::*;
use crate::graphs::GraphSnapshotResult;
use crate::problems::{check_expected_version, conflict, signed_decimal};
use crate::text::{chars_of, is_str, push_str, string_of};

verus! {

/// How long a session stays open, in seconds.
pub const SESSION_TTL_SECONDS: i64 = 1800;
/// The largest cursor position a session accepts.
pub const MAX_CURSOR: usize = 2000000;
pub const SESSION_PREFIX: &'static str = "graphsession_";

pub const NO_TARGET: &'static str = "グラフ挿入先が指定されていません";
pub const BAD_TARGET_FIELD: &'static str = "グラフ挿入先フィールドが不正です";
pub const BAD_SELECTION: &'static str = "グラフ挿入位置が不正です";
pub const ITEM_PROJECT_MISMATCH: &'static str = "教材項目と教材プロジェクトが一致しません";
pub const SESSION_ENDED: &'static str = "このグラフ連携sessionは既に終了しています";
pub const SESSION_EXPIRED: &'static str = "グラフ連携sessionの有効期限が切れました";
pub const SESSION_CLOSED: &'static str = "このグラフ連携sessionは終了または期限切れです";
pub const GRAPH_MISSING: &'static str = "グラフが見つかりません";
pub const NOT_COMPLETED: &'static str = "グラフ連携sessionを完了できませんでした";

/// A request to open a session: where the graph goes and the selection there.
#[derive(Clone, Debug, Default)]
pub struct CreateGraphWebSessionPayload {
    pub project_id: Option<i64>,
    pub problem_id: Option<i64>,
    pub item_id: Option<i64>,
    pub target_field: String,
    pub selection_start: Option<usize>,
    pub selection_end: Option<usize>,
}

/// A session as stored.
#[derive(Clone, Debug, Default)]
pub struct GraphWebSession {
    pub session_id: String,
    pub status: String,
    pub project_id: Option<i64>,
    pub problem_id: Option<i64>,
    pub item_id: Option<i64>,
    pub target_field: String,
    pub selection_start: usize,
    pub selection_end: usize,
    pub expected_target_version: i64,
    pub graph_id: String,
    pub asset_id: String,
    pub inserted_latex: String,
    pub created_at: String,
    pub expires_at: i64,
}

/// A completed session and the graph snapshot it inserted.
#[derive(Clone, Debug, Default)]
pub struct CompleteGraphWebSessionResult {
    pub session: GraphWebSession,
    pub snapshot: GraphSnapshotResult,
}

/// Where a graph snapshot is registered.
#[derive(Clone, Copy, Debug, Default)]
pub struct GraphAssetTarget {
    pub project_id: Option<i64>,
    pub problem_id: Option<i64>,
    pub item_id: Option<i64>,
}

// ---------------------------------------------------------------------------
// Session ids
// ---------------------------------------------------------------------------

pub open spec fn is_hex_digit(c: char) -> bool {
    ('0' <= c && c <= '9') || ('a' <= c && c <= 'f') || ('A' <= c && c <= 'F')
}

/// `graphsession_` and 32 hexadecimal digits.
pub open spec fn valid_session_id(s: Seq<char>) -> bool {
    &&& s.len() == SESSION_PREFIX@.len() + 32
    &&& s.take(SESSION_PREFIX@.len() as int) == SESSION_PREFIX@
    &&& forall|i: int| SESSION_PREFIX@.len() <= i < s.len() ==> is_hex_digit(#[trigger] s[i])
}

/// Whether a text names a session, as session ids are made.
pub fn safe_session_id(value: &str) -> (b: bool)
    ensures
        b == valid_session_id(value@),
{
    let v = chars_of(value);
    let p = chars_of(SESSION_PREFIX);
    if v.len() < p.len() || v.len() - p.len() != 32 {
        return false;
    }
    if !crate::text::starts_with(&v, &p) {
        proof {
            assert(!(v@.take(p@.len() as int) == p@)) by {
                if v@.take(p@.len() as int) == p@ {
                    assert(crate::text::has_prefix(v@, p@));
                }
            }
        }
        return false;
    }
    assert(v@.take(p@.len() as int) =~= p@);
    let mut i: usize = p.len();
    while i < v.len()
        invariant
            p@ == SESSION_PREFIX@,
            v@ == value@,
            p.len() <= i <= v.len(),
            forall|j: int| p@.len() <= j < i ==> is_hex_digit(#[trigger] v@[j]),
        decreases v.len() - i,
    {
        let c = v[i];
        if !(('0' <= c && c <= '9') || ('a' <= c && c <= 'f') || ('A' <= c && c <= 'F')) {
            assert(!is_hex_digit(v@[i as int]));
            return false;
        }
        i += 1;
    }
    true
}

/// The id of a new session made from a random hexadecimal token.
pub fn session_id_of(token: &str) -> (r: String)
    ensures
        r@ == SESSION_PREFIX@ + token@,
{
    let mut v = chars_of(SESSION_PREFIX);
    push_str(&mut v, token);
    string_of(&v)
}

// ---------------------------------------------------------------------------
// Opening a session
// ---------------------------------------------------------------------------

/// The fields a graph may be inserted into for the target named: the fields of
/// a document item, of a problem, or the text of a document; none without a target.
pub open spec fn allowed_fields(item_id: Option<i64>, problem_id: Option<i64>, project_id: Option<i64>) -> Option<Seq<Seq<char>>> {
    if item_id is Some {
        Some(seq!["project_item_statement"@, "project_item_answer"@, "project_item_explanation"@, "project_item_content"@])
    } else if problem_id is Some {
        Some(seq!["problem_statement"@, "problem_answer"@, "problem_explanation"@])
    } else if project_id is Some {
        Some(seq!["project_text"@])
    } else {
        None
    }
}

pub open spec fn target_field_refusal(p: CreateGraphWebSessionPayload) -> Option<Seq<char>> {
    match allowed_fields(p.item_id, p.problem_id, p.project_id) {
        None => Some(NO_TARGET@),
        Some(fields) => if fields.contains(p.target_field@) { None } else { Some(BAD_TARGET_FIELD@) },
    }
}

fn in_fields(field: &Vec<char>, names: &Vec<&str>) -> (b: bool)
    ensures
        b == names@.map_values(|n: &str| n@).contains(field@),
{
    let ghost views = names@.map_values(|n: &str| n@);
    let mut i: usize = 0;
    while i < names.len()
        invariant
            i <= names.len(),
            views == names@.map_values(|n: &str| n@),
            forall|j: int| 0 <= j < i ==> views[j] != field@,
        decreases names.len() - i,
    {
        if is_str(field, names[i]) {
            assert(views[i as int] == field@);
            return true;
        }
        i += 1;
    }
    false
}

/// Checks that the session names a target and a field of it that can take a graph.
pub fn validate_target_field(p: &CreateGraphWebSessionPayload) -> (r: Result<(), String>)
    ensures
        match target_field_refusal(*p) {
            Some(m) => r matches Err(e) && e@ == m,
            None => r is Ok,
        },
{
    let mut names: Vec<&str> = Vec::new();
    if p.item_id.is_some() {
        names.push("project_item_statement");
        names.push("project_item_answer");
        names.push("project_item_explanation");
        names.push("project_item_content");
    } else if p.problem_id.is_some() {
        names.push("problem_statement");
        names.push("problem_answer");
        names.push("problem_explanation");
    } else if p.project_id.is_some() {
        names.push("project_text");
    } else {
        return Err(string_of(&chars_of(NO_TARGET)));
    }
    let field = chars_of(p.target_field.as_str());
    proof {
        let fields = allowed_fields(p.item_id, p.problem_id, p.project_id);
        assert(fields matches Some(f) && f =~= names@.map_values(|n: &str| n@));
    }
    if in_fields(&field, &names) {
        Ok(())
    } else {
        Err(string_of(&chars_of(BAD_TARGET_FIELD)))
    }
}

/// The selection a session records: from the start given (else 0) to the end
/// given (else the start); none where it runs backwards or past the last position.
pub open spec fn selection_of(start: Option<usize>, end: Option<usize>) -> Option<(usize, usize)> {
    let s = start.unwrap_or(0);
    let e = end.unwrap_or(s);
    if s > e || e > MAX_CURSOR { None } else { Some((s, e)) }
}

pub fn session_selection(p: &CreateGraphWebSessionPayload) -> (r: Result<(usize, usize), String>)
    ensures
        match selection_of(p.selection_start, p.selection_end) {
            Some(sel) => r == Ok::<(usize, usize), String>(sel),
            None => r matches Err(e) && e@ == BAD_SELECTION@,
        },
{
    let s = match p.selection_start { Some(v) => v, None => 0 };
    let e = match p.selection_end { Some(v) => v, None => s };
    if s > e || e > MAX_CURSOR {
        Err(string_of(&chars_of(BAD_SELECTION)))
    } else {
        Ok((s, e))
    }
}

/// When a session opened at `now` expires.
pub fn session_expiry(now: i64) -> (r: i64)
    requires
        now <= i64::MAX - SESSION_TTL_SECONDS,
    ensures
        r == now + SESSION_TTL_SECONDS,
{
    now + SESSION_TTL_SECONDS
}

/// Which stored version a session watches: that of the document of the item,
/// of the problem, or of the document named, in that order of preference.
#[derive(Clone, Copy, Debug, PartialEq, Eq)]
pub enum VersionSource {
    Item(i64),
    Problem(i64),
    Project(i64),
}

pub open spec fn version_source_of(project_id: Option<i64>, problem_id: Option<i64>, item_id: Option<i64>) -> Option<VersionSource> {
    match (item_id, problem_id, project_id) {
        (Some(i), _, _) => Some(VersionSource::Item(i)),
        (None, Some(p), _) => Some(VersionSource::Problem(p)),
        (None, None, Some(d)) => Some(VersionSource::Project(d)),
        _ => None,
    }
}

pub fn version_source(project_id: Option<i64>, problem_id: Option<i64>, item_id: Option<i64>) -> (r: Result<VersionSource, String>)
    ensures
        match version_source_of(project_id, problem_id, item_id) {
            Some(v) => r matches Ok(w) && w == v,
            None => r matches Err(e) && e@ == NO_TARGET@,
        },
{
    if let Some(i) = item_id {
        Ok(VersionSource::Item(i))
    } else if let Some(p) = problem_id {
        Ok(VersionSource::Problem(p))
    } else if let Some(d) = project_id {
        Ok(VersionSource::Project(d))
    } else {
        Err(string_of(&chars_of(NO_TARGET)))
    }
}

/// An item watched by a session must belong to the document the session names, if it names one.
pub fn check_item_project(project_id: Option<i64>, actual_project_id: i64) -> (r: Result<(), String>)
    ensures
        match project_id {
            Some(d) if d != actual_project_id => r matches Err(e) && e@ == ITEM_PROJECT_MISMATCH@,
            _ => r is Ok,
        },
{
    match project_id {
        Some(d) => {
            if d != actual_project_id {
                return Err(string_of(&chars_of(ITEM_PROJECT_MISMATCH)));
            }
            Ok(())
        },
        None => Ok(()),
    }
}

// ---------------------------------------------------------------------------
// Reading, cancelling and completing
// ---------------------------------------------------------------------------

pub open spec fn is_pending(status: Seq<char>) -> bool {
    status == "pending"@
}

/// A pending session past its expiry reads as expired; any other keeps its status.
pub open spec fn status_at(status: Seq<char>, expires_at: i64, now: i64) -> Seq<char> {
    if is_pending(status) && expires_at < now { "expired"@ } else { status }
}

pub fn observed_status(status: &str, expires_at: i64, now: i64) -> (r: String)
    ensures
        r@ == status_at(status@, expires_at, now),
{
    if is_str(&chars_of(status), "pending") && expires_at < now {
        string_of(&chars_of("expired"))
    } else {
        string_of(&chars_of(status))
    }
}

/// Only a pending session can be cancelled.
pub fn check_cancellable(status: &str) -> (r: Result<(), String>)
    ensures
        is_pending(status@) ==> r is Ok,
        !is_pending(status@) ==> (r matches Err(e) && e@ == SESSION_ENDED@),
{
    if is_str(&chars_of(status), "pending") {
        Ok(())
    } else {
        Err(string_of(&chars_of(SESSION_ENDED)))
    }
}

/// Why a session cannot be completed.
#[derive(Clone, Debug, PartialEq, Eq)]
pub enum CompletionRefusal {
    /// It is not pending any more.
    Ended,
    /// It has expired; it is to be marked so.
    Expired,
    /// What it points at could not be read.
    Target(String),
    /// What it points at changed since it was opened: the current version.
    TargetChanged(i64),
    /// The graph is gone.
    GraphMissing,
    /// The graph changed since the editor loaded it: the current version.
    GraphChanged(i64),
}

impl CompletionRefusal {
    pub open spec fn message_of(self) -> Seq<char> {
        match self {
            CompletionRefusal::Ended => SESSION_ENDED@,
            CompletionRefusal::Expired => SESSION_EXPIRED@,
            CompletionRefusal::Target(m) => m@,
            CompletionRefusal::TargetChanged(v) => "CONFLICT:"@ + signed_decimal(v),
            CompletionRefusal::GraphMissing => GRAPH_MISSING@,
            CompletionRefusal::GraphChanged(v) => "CONFLICT:"@ + signed_decimal(v),
        }
    }

    /// The message shown for the refusal.
    pub fn message(&self) -> (r: String)
        ensures
            r@ == self.message_of(),
    {
        match self {
            CompletionRefusal::Ended => string_of(&chars_of(SESSION_ENDED)),
            CompletionRefusal::Expired => string_of(&chars_of(SESSION_EXPIRED)),
            CompletionRefusal::Target(m) => m.clone(),
            CompletionRefusal::TargetChanged(v) => conflict_message(*v),
            CompletionRefusal::GraphMissing => string_of(&chars_of(GRAPH_MISSING)),
            CompletionRefusal::GraphChanged(v) => conflict_message(*v),
        }
    }
}

fn conflict_message(current: i64) -> (r: String)
    ensures
        r@ == "CONFLICT:"@ + signed_decimal(current),
{
    let expected: i64 = if current == i64::MAX { i64::MIN } else { current + 1 };
    match check_expected_version(Some(expected), current) {
        Err(e) => e,
        Ok(()) => String::new(),
    }
}

/// What completing a session would meet, in the order it is checked: the
/// session must be pending, then unexpired; what it points at must still be at
/// the version it was opened against; the graph must exist at the version the
/// editor loaded.
pub open spec fn completion_refusal(
    status: Seq<char>,
    expires_at: i64,
    expected_target_version: i64,
    now: i64,
    target_version: Result<i64, Seq<char>>,
    graph_version: Option<i64>,
    expected_graph_version: i64,
) -> Option<CompletionRefusalView> {
    if !is_pending(status) {
        Some(CompletionRefusalView::Ended)
    } else if expires_at < now {
        Some(CompletionRefusalView::Expired)
    } else {
        match target_version {
            Err(m) => Some(CompletionRefusalView::Target(m)),
            Ok(t) => if t != expected_target_version {
                Some(CompletionRefusalView::TargetChanged(t))
            } else {
                match graph_version {
                    None => Some(CompletionRefusalView::GraphMissing),
                    Some(g) => if g != expected_graph_version { Some(CompletionRefusalView::GraphChanged(g)) } else { None },
                }
            },
        }
    }
}

/// A refusal as a value of the specification.
pub enum CompletionRefusalView {
    Ended,
    Expired,
    Target(Seq<char>),
    TargetChanged(i64),
    GraphMissing,
    GraphChanged(i64),
}

impl View for CompletionRefusal {
    type V = CompletionRefusalView;

    open spec fn view(&self) -> CompletionRefusalView {
        match self {
            CompletionRefusal::Ended => CompletionRefusalView::Ended,
            CompletionRefusal::Expired => CompletionRefusalView::Expired,
            CompletionRefusal::Target(m) => CompletionRefusalView::Target(m@),
            CompletionRefusal::TargetChanged(v) => CompletionRefusalView::TargetChanged(*v),
            CompletionRefusal::GraphMissing => CompletionRefusalView::GraphMissing,
            CompletionRefusal::GraphChanged(v) => CompletionRefusalView::GraphChanged(*v),
        }
    }
}

pub open spec fn lookup_view(r: Result<i64, String>) -> Result<i64, Seq<char>> {
    match r {
        Ok(v) => Ok(v),
        Err(m) => Err(m@),
    }
}

/// Decides whether a session may be completed, from the session, the time and
/// the versions read now.
pub fn check_completion(
    session: &GraphWebSession,
    now: i64,
    target_version: Result<i64, String>,
    graph_version: Option<i64>,
    expected_graph_version: i64,
) -> (r: Result<(), CompletionRefusal>)
    ensures
        match completion_refusal(session.status@, session.expires_at, session.expected_target_version, now,
            lookup_view(target_version), graph_version, expected_graph_version) {
            Some(why) => r matches Err(w) && w@ == why,
            None => r is Ok,
        },
{
    if !is_str(&chars_of(session.status.as_str()), "pending") {
        return Err(CompletionRefusal::Ended);
    }
    if session.expires_at < now {
        return Err(CompletionRefusal::Expired);
    }
    match target_version {
        Err(m) => Err(CompletionRefusal::Target(m)),
        Ok(t) => {
            if t != session.expected_target_version {
                return Err(CompletionRefusal::TargetChanged(t));
            }
            match graph_version {
                None => Err(CompletionRefusal::GraphMissing),
                Some(g) => if g != expected_graph_version {
                    Err(CompletionRefusal::GraphChanged(g))
                } else {
                    Ok(())
                },
            }
        },
    }
}

/// The check made again when the snapshot is registered: the session, as read
/// inside the transaction, must still be pending and unexpired, and its target
/// still at the version it was opened against.
pub open spec fn still_open_refusal(status: Seq<char>, expires_at: i64, expected_target_version: i64, now: i64,
    target_version: Result<i64, Seq<char>>) -> Option<Seq<char>> {
    if !is_pending(status) || expires_at < now {
        Some(SESSION_CLOSED@)
    } else {
        match target_version {
            Err(m) => Some(m),
            Ok(t) => conflict(Some(expected_target_version), t),
        }
    }
}

pub fn check_still_open(current: &GraphWebSession, now: i64, target_version: Result<i64, String>) -> (r: Result<GraphAssetTarget, String>)
    ensures
        match still_open_refusal(current.status@, current.expires_at, current.expected_target_version, now, lookup_view(target_version)) {
            Some(m) => r matches Err(e) && e@ == m,
            None => r == Ok::<GraphAssetTarget, String>(GraphAssetTarget {
                project_id: current.project_id,
                problem_id: current.problem_id,
                item_id: current.item_id,
            }),
        },
{
    if !is_str(&chars_of(current.status.as_str()), "pending") || current.expires_at < now {
        return Err(string_of(&chars_of(SESSION_CLOSED)));
    }
    match target_version {
        Err(m) => Err(m),
        Ok(t) => {
            match check_expected_version(Some(current.expected_target_version), t) {
                Err(e) => Err(e),
                Ok(()) => Ok(GraphAssetTarget {
                    project_id: current.project_id,
                    problem_id: current.problem_id,
                    item_id: current.item_id,
                }),
            }
        },
    }
}

/// Exactly one pending session must have been marked completed.
pub fn check_completed_rows(changed: usize) -> (r: Result<(), String>)
    ensures
        changed == 1 ==> r is Ok,
        changed != 1 ==> (r matches Err(e) && e@ == NOT_COMPLETED@),
{
    if changed != 1 {
        Err(string_of(&chars_of(NOT_COMPLETED)))
    } else {
        Ok(())
    }
}


/// Law: a session is completed only while it is pending and unexpired, and
/// only when neither what it points at nor the graph changed since.
pub proof fn lemma_completion_needs_an_open_unchanged_session(
    status: Seq<char>,
    expires_at: i64,
    expected_target_version: i64,
    now: i64,
    target_version: Result<i64, Seq<char>>,
    graph_version: Option<i64>,
    expected_graph_version: i64,
)
    requires
        completion_refusal(status, expires_at, expected_target_version, now, target_version, graph_version,
            expected_graph_version) is None,
    ensures
        is_pending(status),
        expires_at >= now,
        target_version == Ok::<i64, Seq<char>>(expected_target_version),
        graph_version == Some(expected_graph_version),
{
}

} // verus!
