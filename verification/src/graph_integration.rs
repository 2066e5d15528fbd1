//! Hand-off to the external graph editor: request tokens, inserted LaTeX and
//! the choice of the editor executable.
use vstd::prelude::*;
use crate::text::{chars_of, contains, contains_str, is_str, push_all, push_str, slice_of, string_of, trim, trim_of};

verus! {

pub open spec fn is_ascii_alnum(c: char) -> bool {
    ('0' <= c && c <= '9') || ('a' <= c && c <= 'z') || ('A' <= c && c <= 'Z')
}

pub open spec fn token_char(c: char) -> bool {
    is_ascii_alnum(c) || c == '-' || c == '_'
}

/// A request id that can stand in a file name: 1 to 80 ASCII letters, digits, `-` or `_`.
pub open spec fn safe_token(s: Seq<char>) -> bool {
    0 < s.len() <= 80 && forall|k: int| 0 <= k < s.len() ==> token_char(#[trigger] s[k])
}

pub fn is_safe_token(s: &str) -> (b: bool)
    ensures
        b == safe_token(s@),
{
    let v = chars_of(s);
    if v.len() == 0 || v.len() > 80 {
        return false;
    }
    let mut k: usize = 0;
    while k < v.len()
        invariant
            k <= v.len(),
            v@ == s@,
            forall|j: int| 0 <= j < k ==> token_char(#[trigger] v@[j]),
        decreases v.len() - k,
    {
        let c = v[k];
        if !((('0' <= c && c <= '9') || ('a' <= c && c <= 'z') || ('A' <= c && c <= 'Z')) || c == '-' || c == '_') {
            assert(!token_char(v@[k as int]));
            return false;
        }
        k += 1;
    }
    true
}

pub open spec fn width_char(c: char) -> bool {
    is_ascii_alnum(c) || c == '.' || c == '\\' || c == '{' || c == '}' || c == '_' || c == '-' || c == '+'
        || c == '/' || c == ' '
}

pub const DEFAULT_WIDTH: &'static str = "0.72\\linewidth";

/// The width asked for, or the default where none is.
pub open spec fn requested_width(value: Option<Seq<char>>) -> Seq<char> {
    match value {
        Some(x) => x,
        None => DEFAULT_WIDTH@,
    }
}

/// An image width for `\includegraphics`: the requested one (trimmed) where it is
/// 1 to 40 harmless ASCII characters, else the default width.
pub open spec fn width_of(raw: Seq<char>) -> Seq<char> {
    let v = trim(raw);
    if 0 < v.len() && v.len() <= 40 && forall|k: int| 0 <= k < v.len() ==> width_char(#[trigger] v[k]) {
        v
    } else {
        DEFAULT_WIDTH@
    }
}

fn all_width_chars(v: &Vec<char>) -> (b: bool)
    ensures
        b == forall|k: int| 0 <= k < v@.len() ==> width_char(#[trigger] v@[k]),
{
    let mut k: usize = 0;
    while k < v.len()
        invariant
            k <= v.len(),
            forall|j: int| 0 <= j < k ==> width_char(#[trigger] v@[j]),
        decreases v.len() - k,
    {
        let c = v[k];
        if !((('0' <= c && c <= '9') || ('a' <= c && c <= 'z') || ('A' <= c && c <= 'Z')) || c == '.'
            || c == '\\' || c == '{' || c == '}' || c == '_' || c == '-' || c == '+' || c == '/' || c
            == ' ') {
            assert(!width_char(v@[k as int]));
            return false;
        }
        k += 1;
    }
    true
}

pub fn safe_width(value: Option<&str>) -> (r: String)
    ensures
        r@ == width_of(
            requested_width(
                match value {
                    Some(x) => Some(x@),
                    None => None,
                },
            ),
        ),
{
    let raw = match value {
        Some(x) => chars_of(x),
        None => chars_of(DEFAULT_WIDTH),
    };
    let ghost req = match value {
        Some(x) => Some(x@),
        None => None,
    };
    assert(raw@ == match req {
        Some(x) => x,
        None => DEFAULT_WIDTH@,
    });
    let v = trim_of(&raw);
    let ok = v.len() > 0 && v.len() <= 40 && all_width_chars(&v);
    assert(ok == (0 < v@.len() <= 40 && forall|k: int| 0 <= k < v@.len() ==> width_char(#[trigger] v@[k])));
    if ok {
        string_of(&v)
    } else {
        string_of(&chars_of(DEFAULT_WIDTH))
    }
}

/// The LaTeX that places an imported graph.
pub open spec fn graph_latex(asset_id: Seq<char>, primary_name: Seq<char>, width: Seq<char>) -> Seq<char> {
    "\n\\noindent\\includegraphics[width="@ + width + ",height=0.28\\textheight,keepaspectratio]{assets/graphs/"@
        + asset_id + "/"@ + primary_name + "}\\par\\smallskip\n"@
}

pub fn make_latex(asset_id: &str, primary_name: &str, width: &str) -> (r: String)
    ensures
        r@ == graph_latex(asset_id@, primary_name@, width@),
{
    let mut out = chars_of("\n\\noindent\\includegraphics[width=");
    push_str(&mut out, width);
    push_str(&mut out, ",height=0.28\\textheight,keepaspectratio]{assets/graphs/");
    push_str(&mut out, asset_id);
    push_str(&mut out, "/");
    push_str(&mut out, primary_name);
    push_str(&mut out, "}\\par\\smallskip\n");
    string_of(&out)
}

/// `/` turned into `\` and ASCII letters lower-cased.
pub open spec fn windows_lower(s: Seq<char>) -> Seq<char> {
    s.map_values(
        |c: char|
            if c == '/' {
                '\\'
            } else if 'A' <= c && c <= 'Z' {
                ((c as u32) + 32) as char
            } else {
                c
            },
    )
}

/// A path inside a debug build folder.
pub open spec fn debug_build_path(path: Seq<char>) -> bool {
    contains(windows_lower(path), "\\target\\debug\\"@)
}

pub fn is_debug_graph_executable(path: &str) -> (b: bool)
    ensures
        b == debug_build_path(path@),
{
    let v = chars_of(path);
    let mut out: Vec<char> = Vec::new();
    let mut i: usize = 0;
    while i < v.len()
        invariant
            i <= v.len(),
            out@ == windows_lower(v@.take(i as int)),
        decreases v.len() - i,
    {
        let c = v[i];
        let d = if c == '/' {
            '\\'
        } else if 'A' <= c && c <= 'Z' {
            ((c as u8) + 32) as char
        } else {
            c
        };
        out.push(d);
        assert(out@ =~= windows_lower(v@.take(i + 1)));
        i += 1;
    }
    assert(v@.take(v@.len() as int) =~= v@);
    contains_str(&out, "\\target\\debug\\")
}

/// The first candidate that is an executable outside a debug build, else the
/// first executable one. Each candidate carries whether it is an existing `.exe`.
pub open spec fn first_release(cands: Seq<(String, bool)>) -> Option<Seq<char>>
    decreases cands.len(),
{
    if cands.len() == 0 {
        None
    } else if cands[0].1 && !debug_build_path(cands[0].0@) {
        Some(cands[0].0@)
    } else {
        first_release(cands.drop_first())
    }
}

pub open spec fn first_executable(cands: Seq<(String, bool)>) -> Option<Seq<char>>
    decreases cands.len(),
{
    if cands.len() == 0 {
        None
    } else if cands[0].1 {
        Some(cands[0].0@)
    } else {
        first_executable(cands.drop_first())
    }
}

pub open spec fn detected(cands: Seq<(String, bool)>) -> Option<Seq<char>> {
    match first_release(cands) {
        Some(p) => Some(p),
        None => first_executable(cands),
    }
}

/// The graph editor to launch: the configured one where it is an executable
/// outside a debug build; else a detected one; else the configured debug build.
pub open spec fn graph_app(configured: Option<(String, bool)>, cands: Seq<(String, bool)>) -> Option<Seq<char>> {
    match configured {
        Some((p, exe)) => if exe && !debug_build_path(p@) {
            Some(p@)
        } else if exe {
            match detected(cands) {
                Some(d) => Some(d),
                None => Some(p@),
            }
        } else {
            detected(cands)
        },
        None => detected(cands),
    }
}

fn first_release_exec(cands: &Vec<(String, bool)>) -> (r: Option<String>)
    ensures
        r matches Some(x) ==> first_release(cands@) == Some(x@),
        r is None ==> first_release(cands@) is None,
{
    let mut i: usize = 0;
    assert(cands@.skip(0) =~= cands@);
    while i < cands.len()
        invariant
            i <= cands.len(),
            first_release(cands@) == first_release(cands@.skip(i as int)),
        decreases cands.len() - i,
    {
        assert(cands@.skip(i as int).drop_first() =~= cands@.skip(i + 1));
        if cands[i].1 && !is_debug_graph_executable(cands[i].0.as_str()) {
            return Some(cands[i].0.clone());
        }
        i += 1;
    }
    None
}

fn first_executable_exec(cands: &Vec<(String, bool)>) -> (r: Option<String>)
    ensures
        r matches Some(x) ==> first_executable(cands@) == Some(x@),
        r is None ==> first_executable(cands@) is None,
{
    let mut i: usize = 0;
    assert(cands@.skip(0) =~= cands@);
    while i < cands.len()
        invariant
            i <= cands.len(),
            first_executable(cands@) == first_executable(cands@.skip(i as int)),
        decreases cands.len() - i,
    {
        assert(cands@.skip(i as int).drop_first() =~= cands@.skip(i + 1));
        if cands[i].1 {
            return Some(cands[i].0.clone());
        }
        i += 1;
    }
    None
}

fn detect_exec(cands: &Vec<(String, bool)>) -> (r: Option<String>)
    ensures
        r matches Some(x) ==> detected(cands@) == Some(x@),
        r is None ==> detected(cands@) is None,
{
    match first_release_exec(cands) {
        Some(p) => Some(p),
        None => first_executable_exec(cands),
    }
}

/// Chooses the graph editor executable from the configured path and the
/// detected candidates, each paired with whether it is an existing `.exe`.
pub fn detect_graph_app_path(configured: Option<(String, bool)>, candidates: &Vec<(String, bool)>) -> (r: Option<String>)
    ensures
        r matches Some(x) ==> graph_app(configured, candidates@) == Some(x@),
        r is None ==> graph_app(configured, candidates@) is None,
{
    match configured {
        Some((p, exe)) => {
            if exe && !is_debug_graph_executable(p.as_str()) {
                Some(p)
            } else if exe {
                match detect_exec(candidates) {
                    Some(d) => Some(d),
                    None => Some(p),
                }
            } else {
                detect_exec(candidates)
            }
        },
        None => detect_exec(candidates),
    }
}

/// The outcome of checking the graph editor settings.
pub struct GraphIntegrationTestResult {
    pub ok: bool,
    pub path: Option<String>,
    pub message: String,
}

/// Reports on the graph editor that was found (`path`), given whether it is an
/// existing file with the `exe` extension.
pub fn test_graph_integration_settings(path: Option<String>, is_exe_file: bool) -> (r: GraphIntegrationTestResult)
    ensures
        path is None ==> !r.ok && r.path is None
            && r.message@ == "Graph app executable was not found. Set graph_app_path in Settings."@,
        path is Some ==> r.ok == is_exe_file && r.path == path && r.message@ == (if is_exe_file {
            "Graph app executable is available."@
        } else {
            "Configured graph app path is not a valid .exe file."@
        }),
{
    match path {
        None => GraphIntegrationTestResult {
            ok: false,
            path: None,
            message: string_of(&chars_of("Graph app executable was not found. Set graph_app_path in Settings.")),
        },
        Some(p) => {
            let message = if is_exe_file {
                string_of(&chars_of("Graph app executable is available."))
            } else {
                string_of(&chars_of("Configured graph app path is not a valid .exe file."))
            };
            GraphIntegrationTestResult { ok: is_exe_file, path: Some(p), message }
        },
    }
}

/// The position of the last `.` in `s`.
pub open spec fn last_dot(s: Seq<char>) -> Option<int>
    decreases s.len(),
{
    if s.len() == 0 {
        None
    } else if s.last() == '.' {
        Some(s.len() - 1)
    } else {
        last_dot(s.drop_last())
    }
}

/// The extension of a file name, lower-cased; empty where it has none (a name
/// whose only dot leads it, such as `.hidden`, has none).
pub open spec fn extension_of(name: Seq<char>) -> Seq<char> {
    match last_dot(name) {
        Some(k) => if k == 0 { seq![] } else { crate::graphs::ascii_lower(name.skip(k + 1)) },
        None => seq![],
    }
}

pub open spec fn str_views(v: Seq<&str>) -> Seq<Seq<char>> {
    v.map_values(|e: &str| e@)
}

/// A file named by the graph editor's manifest, accepted only as a bare file
/// name with one of the allowed extensions.
pub open spec fn manifest_name_result(name: Option<Seq<char>>, field: Seq<char>, allowed: Seq<Seq<char>>) -> Result<Seq<char>, Seq<char>> {
    let n = match name {
        Some(x) => trim(x),
        None => seq![],
    };
    if n.len() == 0 {
        Err("manifest is missing "@ + field)
    } else if n.contains('/') || n.contains('\\') || n.contains(':') {
        Err("manifest "@ + field + " must be a file name"@)
    } else if n == "."@ || n == ".."@ {
        Err("manifest "@ + field + " must not contain a path"@)
    } else if !allowed.contains(extension_of(n)) {
        Err("manifest "@ + field + " has an unsupported extension"@)
    } else {
        Ok(n)
    }
}

fn has_char(v: &Vec<char>, c: char) -> (b: bool)
    ensures
        b == v@.contains(c),
{
    let mut k: usize = 0;
    while k < v.len()
        invariant
            k <= v.len(),
            forall|j: int| 0 <= j < k ==> v@[j] != c,
        decreases v.len() - k,
    {
        if v[k] == c {
            return true;
        }
        k += 1;
    }
    false
}

pub(crate) fn extension_exec(n: &Vec<char>) -> (r: Vec<char>)
    ensures
        r@ == extension_of(n@),
{
    let mut k = n.len();
    assert(n@.take(k as int) =~= n@);
    while k > 0 && n[k - 1] != '.'
        invariant
            k <= n.len(),
            last_dot(n@) == last_dot(n@.take(k as int)),
            forall|j: int| k <= j < n.len() ==> n@[j] != '.',
        decreases k,
    {
        assert(n@.take(k as int).drop_last() =~= n@.take(k - 1));
        k -= 1;
    }
    if k == 0 {
        return Vec::new();
    }
    assert(last_dot(n@.take(k as int)) == Some(k - 1));
    if k - 1 == 0 {
        return Vec::new();
    }
    let rest = slice_of(n, k, n.len());
    assert(rest@ =~= n@.skip(k as int));
    crate::graphs::ascii_lower_vec(&rest)
}

fn manifest_err(a: &str, field: &str, b: &str) -> (r: Result<String, String>)
    ensures
        r matches Err(e) && e@ == a@ + field@ + b@,
{
    let mut m = chars_of(a);
    push_str(&mut m, field);
    push_str(&mut m, b);
    Err(string_of(&m))
}

/// Checks a file name given in the graph editor's manifest.
pub fn safe_manifest_file_name(name: Option<&str>, field: &str, allowed_exts: &[&str]) -> (r: Result<String, String>)
    ensures
        match manifest_name_result(
            match name {
                Some(x) => Some(x@),
                None => None,
            },
            field@,
            str_views(allowed_exts@),
        ) {
            Ok(n) => r matches Ok(x) && x@ == n,
            Err(m) => r matches Err(e) && e@ == m,
        },
{
    let n = match name {
        Some(x) => trim_of(&chars_of(x)),
        None => Vec::new(),
    };
    if n.len() == 0 {
        let mut m = chars_of("manifest is missing ");
        push_str(&mut m, field);
        return Err(string_of(&m));
    }
    if has_char(&n, '/') || has_char(&n, '\\') || has_char(&n, ':') {
        return manifest_err("manifest ", field, " must be a file name");
    }
    if is_str(&n, ".") || is_str(&n, "..") {
        return manifest_err("manifest ", field, " must not contain a path");
    }
    let ext = extension_exec(&n);
    let mut k: usize = 0;
    let mut found = false;
    while k < allowed_exts.len()
        invariant
            k <= allowed_exts.len(),
            found == str_views(allowed_exts@).take(k as int).contains(ext@),
        decreases allowed_exts.len() - k,
    {
        let e = chars_of(allowed_exts[k]);
        let hit = crate::text::eq_chars(&e, &ext);
        proof {
            let before = str_views(allowed_exts@).take(k as int);
            let after = str_views(allowed_exts@).take(k + 1);
            assert(after =~= before.push(allowed_exts@[k as int]@));
            if hit {
                assert(after[k as int] == ext@);
            }
            if after.contains(ext@) && !hit {
                let j = choose|j: int| 0 <= j < after.len() && after[j] == ext@;
                assert(j < k);
                assert(before[j] == ext@);
            }
            if before.contains(ext@) {
                let j = choose|j: int| 0 <= j < before.len() && before[j] == ext@;
                assert(after[j] == ext@);
            }
        }
        found = found || hit;
        k += 1;
    }
    assert(str_views(allowed_exts@).take(allowed_exts@.len() as int) =~= str_views(allowed_exts@));
    if !found {
        return manifest_err("manifest ", field, " has an unsupported extension");
    }
    Ok(string_of(&n))
}


// ---------------------------------------------------------------------------
// Requests to the editor and what comes back
// ---------------------------------------------------------------------------

/// A request to open the graph editor for a place in a document.
#[derive(Clone, Debug, Default)]
pub struct StartGraphIntegrationPayload {
    pub project_id: Option<i64>,
    pub problem_id: Option<i64>,
    pub item_id: Option<i64>,
    pub insert_target: String,
    pub selection_start: Option<usize>,
    pub selection_end: Option<usize>,
    pub reedit_asset_id: Option<String>,
}

/// The editor, once launched for a request.
#[derive(Clone, Debug, Default)]
pub struct GraphIntegrationSession {
    pub request_id: String,
    pub request_path: String,
    pub return_folder: String,
    pub graph_app_path: String,
    pub launched: bool,
    pub message: String,
}

/// What a request has come to.
#[derive(Clone, Debug, Default)]
pub struct GraphIntegrationPoll {
    pub status: String,
    pub request_id: String,
    pub asset_id: Option<String>,
    pub graph_id: Option<String>,
    pub display_name: Option<String>,
    pub inserted_latex: Option<String>,
    pub message: String,
    pub details: Option<String>,
}

/// A graph asset kept for a document.
#[derive(Clone, Debug, Default)]
pub struct GraphAssetSummary {
    pub asset_id: String,
    pub graph_id: String,
    pub display_name: String,
    pub project_id: Option<i64>,
    pub problem_id: Option<i64>,
    pub item_id: Option<i64>,
    pub source_application: String,
    pub editable_source_path: String,
    pub primary_asset_path: String,
    pub preview_asset_path: String,
    pub latex_source_path: String,
    pub inserted_latex: String,
    pub created_at: String,
    pub updated_at: String,
    pub version: i64,
}

pub const UNSAFE_INSERT_TARGET: &'static str = "insert target contains unsafe characters";
pub const UNSAFE_REQUEST_ID: &'static str = "request id contains unsafe characters";
pub const REQUEST_MISMATCH: &'static str = "request id does not match the request file";
pub const MANIFEST_MISMATCH: &'static str = "manifest requestId does not match";
pub const WAITING: &'static str = "Waiting for graph app output.";
pub const CANCELLED: &'static str = "Graph insertion was cancelled.";
pub const FAILED_DEFAULT: &'static str = "Graph app reported a failure.";
pub const UNSUPPORTED_STATUS: &'static str = "unsupported manifest status: ";

/// An insert target is blank, or made of ASCII letters, digits, `_` and `-`.
pub open spec fn insert_target_ok(t: Seq<char>) -> bool {
    trim(t).len() == 0 || forall|k: int| 0 <= k < t.len() ==> token_char(#[trigger] t[k])
}

pub fn check_insert_target(t: &str) -> (r: Result<(), String>)
    ensures
        insert_target_ok(t@) ==> r is Ok,
        !insert_target_ok(t@) ==> (r matches Err(e) && e@ == UNSAFE_INSERT_TARGET@),
{
    let v = chars_of(t);
    if trim_of(&v).len() == 0 {
        return Ok(());
    }
    let mut k: usize = 0;
    while k < v.len()
        invariant
            k <= v.len(),
            v@ == t@,
            trim(t@).len() > 0,
            forall|j: int| 0 <= j < k ==> token_char(#[trigger] v@[j]),
        decreases v.len() - k,
    {
        let c = v[k];
        if !((('0' <= c && c <= '9') || ('a' <= c && c <= 'z') || ('A' <= c && c <= 'Z')) || c == '-' || c == '_') {
            assert(!token_char(v@[k as int]));
            return Err(string_of(&chars_of(UNSAFE_INSERT_TARGET)));
        }
        k += 1;
    }
    Ok(())
}

/// What the editor left in the return folder: whose request it answers, how it
/// ended, and the error it reported, if any.
#[derive(Clone, Debug, Default)]
pub struct ManifestStatus {
    pub request_id: String,
    pub status: String,
    pub error_message: Option<String>,
    pub error_details: Option<String>,
}

/// The next step of a poll.
#[derive(Clone, Debug)]
pub enum PollStep {
    /// Report this to the document editor.
    Report(GraphIntegrationPoll),
    /// The editor finished: bring its output in.
    Import,
}

/// A poll result that carries no graph.
pub open spec fn plain_poll(p: GraphIntegrationPoll, status: Seq<char>, request_id: Seq<char>, message: Seq<char>, details: Option<Seq<char>>) -> bool {
    &&& p.status@ == status
    &&& p.request_id@ == request_id
    &&& p.asset_id is None
    &&& p.graph_id is None
    &&& p.display_name is None
    &&& p.inserted_latex is None
    &&& p.message@ == message
    &&& crate::models::opt_string_view(p.details) == details
}

/// Decides a poll from the request id asked about, the id in the request
/// file, and the manifest, if the editor has written one.
pub fn poll_step(request_id: &str, request_file_id: &str, manifest: Option<ManifestStatus>) -> (r: Result<PollStep, String>)
    ensures
        !safe_token(request_id@) ==> (r matches Err(e) && e@ == UNSAFE_REQUEST_ID@),
        safe_token(request_id@) && request_file_id@ != request_id@ ==> (r matches Err(e) && e@ == REQUEST_MISMATCH@),
        safe_token(request_id@) && request_file_id@ == request_id@ ==> match manifest {
            None => r matches Ok(PollStep::Report(p)) && plain_poll(p, "pending"@, request_id@, WAITING@, None),
            Some(m) => if m.request_id@ != request_id@ {
                r matches Err(e) && e@ == MANIFEST_MISMATCH@
            } else if m.status@ == "completed"@ {
                r matches Ok(PollStep::Import)
            } else if m.status@ == "cancelled"@ {
                r matches Ok(PollStep::Report(p)) && plain_poll(p, "cancelled"@, request_id@, CANCELLED@, None)
            } else if m.status@ == "failed"@ {
                r matches Ok(PollStep::Report(p)) && plain_poll(p, "failed"@, request_id@,
                    match m.error_message { Some(x) => x@, None => FAILED_DEFAULT@ },
                    crate::models::opt_string_view(m.error_details))
            } else {
                r matches Err(e) && e@ == UNSUPPORTED_STATUS@ + m.status@
            },
        },
{
    if !is_safe_token(request_id) {
        return Err(string_of(&chars_of(UNSAFE_REQUEST_ID)));
    }
    let rid = chars_of(request_id);
    if !crate::text::eq_chars(&chars_of(request_file_id), &rid) {
        return Err(string_of(&chars_of(REQUEST_MISMATCH)));
    }
    let id = string_of(&rid);
    match manifest {
        None => Ok(PollStep::Report(GraphIntegrationPoll {
            status: string_of(&chars_of("pending")),
            request_id: id,
            asset_id: None,
            graph_id: None,
            display_name: None,
            inserted_latex: None,
            message: string_of(&chars_of(WAITING)),
            details: None,
        })),
        Some(m) => {
            if !crate::text::eq_chars(&chars_of(m.request_id.as_str()), &rid) {
                return Err(string_of(&chars_of(MANIFEST_MISMATCH)));
            }
            let st = chars_of(m.status.as_str());
            if is_str(&st, "completed") {
                Ok(PollStep::Import)
            } else if is_str(&st, "cancelled") {
                Ok(PollStep::Report(GraphIntegrationPoll {
                    status: string_of(&chars_of("cancelled")),
                    request_id: id,
                    asset_id: None,
                    graph_id: None,
                    display_name: None,
                    inserted_latex: None,
                    message: string_of(&chars_of(CANCELLED)),
                    details: None,
                }))
            } else if is_str(&st, "failed") {
                let message = match m.error_message {
                    Some(x) => x,
                    None => string_of(&chars_of(FAILED_DEFAULT)),
                };
                Ok(PollStep::Report(GraphIntegrationPoll {
                    status: string_of(&chars_of("failed")),
                    request_id: id,
                    asset_id: None,
                    graph_id: None,
                    display_name: None,
                    inserted_latex: None,
                    message,
                    details: m.error_details,
                }))
            } else {
                let mut e = chars_of(UNSUPPORTED_STATUS);
                push_all(&mut e, &st);
                Err(string_of(&e))
            }
        },
    }
}


// ---------------------------------------------------------------------------
// Bringing a finished graph in
// ---------------------------------------------------------------------------

/// The version of the hand-off files this program speaks.
pub const PROTOCOL_VERSION: i64 = 1;
/// The application recorded as the source of imported graphs.
pub const TARGET_APP: &'static str = "MathGraph PDF Studio";
pub const BAD_PROTOCOL: &'static str = "unsupported manifest protocol version";
pub const NO_GRAPH: &'static str = "completed manifest does not contain graph metadata";

/// How a finished graph is brought in: under which ids and name, whether it
/// replaces an asset, and how wide it is placed.
#[derive(Clone, Debug, Default)]
pub struct ManifestImportPlan {
    pub graph_id: String,
    pub display_name: String,
    pub asset_id: String,
    pub is_update: bool,
    pub width: String,
}

pub open spec fn safe_or_fresh(id: Option<Seq<char>>, token: Seq<char>) -> Seq<char> {
    match id {
        Some(g) => if safe_token(g) { g } else { "graph_"@ + token },
        None => "graph_"@ + token,
    }
}

pub open spec fn name_or_default(name: Option<Seq<char>>) -> Seq<char> {
    match name {
        Some(d) => if trim(d).len() > 0 { d } else { "Graph"@ },
        None => "Graph"@,
    }
}

pub open spec fn replaces_asset(update_asset_id: Option<Seq<char>>) -> bool {
    match update_asset_id {
        Some(u) => safe_token(u),
        None => false,
    }
}

fn safe_or_fresh_exec(id: Option<String>, token: &str) -> (r: String)
    ensures
        r@ == safe_or_fresh(crate::models::opt_string_view(id), token@),
{
    match id {
        Some(g) => {
            if is_safe_token(g.as_str()) {
                return g;
            }
            let mut v = chars_of("graph_");
            push_str(&mut v, token);
            string_of(&v)
        },
        None => {
            let mut v = chars_of("graph_");
            push_str(&mut v, token);
            string_of(&v)
        },
    }
}

/// Plans the import of a finished graph from the manifest and the request:
/// refuses another protocol and a manifest without a graph; keeps the graph
/// id and the asset to update only where they are safe tokens, else makes
/// fresh ids from the random tokens given; names the graph `Graph` where it
/// has no name.
pub fn plan_manifest_import(
    protocol_version: Option<i64>,
    has_graph: bool,
    graph_id: Option<String>,
    display_name: Option<String>,
    update_asset_id: Option<String>,
    width: Option<String>,
    graph_token: &str,
    asset_token: &str,
) -> (r: Result<ManifestImportPlan, String>)
    ensures
        protocol_version.unwrap_or(PROTOCOL_VERSION) != PROTOCOL_VERSION ==> (r matches Err(e) && e@ == BAD_PROTOCOL@),
        protocol_version.unwrap_or(PROTOCOL_VERSION) == PROTOCOL_VERSION && !has_graph ==> (r matches Err(e)
            && e@ == NO_GRAPH@),
        protocol_version.unwrap_or(PROTOCOL_VERSION) == PROTOCOL_VERSION && has_graph ==> (r matches Ok(p)
            && p.graph_id@ == safe_or_fresh(crate::models::opt_string_view(graph_id), graph_token@)
            && p.display_name@ == name_or_default(crate::models::opt_string_view(display_name))
            && p.is_update == replaces_asset(crate::models::opt_string_view(update_asset_id))
            && p.asset_id@ == safe_or_fresh(crate::models::opt_string_view(update_asset_id), asset_token@)
            && p.width@ == width_of(requested_width(crate::models::opt_string_view(width)))),
{
    let version = match protocol_version {
        Some(v) => v,
        None => PROTOCOL_VERSION,
    };
    if version != PROTOCOL_VERSION {
        return Err(string_of(&chars_of(BAD_PROTOCOL)));
    }
    if !has_graph {
        return Err(string_of(&chars_of(NO_GRAPH)));
    }
    let gid = safe_or_fresh_exec(graph_id, graph_token);
    let name = match display_name {
        Some(d) => if trim_of(&chars_of(d.as_str())).len() > 0 { d } else { string_of(&chars_of("Graph")) },
        None => string_of(&chars_of("Graph")),
    };
    let is_update = match &update_asset_id {
        Some(u) => is_safe_token(u.as_str()),
        None => false,
    };
    let aid = safe_or_fresh_exec(update_asset_id, asset_token);
    let w = match &width {
        Some(x) => safe_width(Some(x.as_str())),
        None => safe_width(None),
    };
    Ok(ManifestImportPlan { graph_id: gid, display_name: name, asset_id: aid, is_update, width: w })
}

/// The version an imported asset is stored at: one past the stored one, or 1.
pub fn next_asset_version(stored: Option<i64>) -> (r: i64)
    requires
        stored matches Some(v) ==> v < i64::MAX,
    ensures
        r == stored.unwrap_or(0) + 1,
{
    match stored {
        Some(v) => v + 1,
        None => 1,
    }
}

/// What a poll reports once a finished graph is in.
pub fn completed_poll(request_id: String, plan: &ManifestImportPlan, inserted_latex: String) -> (r: GraphIntegrationPoll)
    ensures
        r.status@ == "completed"@,
        r.request_id == request_id,
        r.asset_id == Some(plan.asset_id),
        r.graph_id == Some(plan.graph_id),
        r.display_name == Some(plan.display_name),
        r.inserted_latex == Some(inserted_latex),
        r.message@ == (if plan.is_update { "Graph asset updated."@ } else { "Graph asset imported."@ }),
        r.details is None,
{
    GraphIntegrationPoll {
        status: string_of(&chars_of("completed")),
        request_id,
        asset_id: Some(plan.asset_id.clone()),
        graph_id: Some(plan.graph_id.clone()),
        display_name: Some(plan.display_name.clone()),
        inserted_latex: Some(inserted_latex),
        message: if plan.is_update {
            string_of(&chars_of("Graph asset updated."))
        } else {
            string_of(&chars_of("Graph asset imported."))
        },
        details: None,
    }
}

} // verus!
