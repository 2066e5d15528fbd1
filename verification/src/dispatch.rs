//! Which commands a browser may run, and which change events a command raises.
use vstd::prelude::*;
use crate::patterns::contains_seq;
use crate::text::{chars_of, views};
use crate::graph_integration::GraphAssetSummary;

verus! {

/// Where a command comes from.
#[derive(Clone, Copy, PartialEq, Eq, Structural, Debug)]
pub enum Origin {
    Desktop,
    Web,
}

/// Commands that take local paths or manage the host, refused to browsers.
pub open spec fn web_blocked_commands() -> Seq<Seq<char>> {
    seq![
        "add_attachment"@,
        "add_part_attachment"@,
        "add_template_asset"@,
        "analyze_tex_file"@,
        "import_template_from_tex"@,
        "import_template_file"@,
        "export_template"@,
        "export_bank"@,
        "import_bank"@,
        "read_compiled_file"@,
        "detect_graph_app_path"@,
        "test_graph_integration_settings"@,
        "start_graph_integration"@,
        "poll_graph_integration"@,
        "server_status"@,
        "server_start"@,
        "server_stop"@,
        "server_regen_pairing"@,
        "server_settings_get"@,
        "server_settings_set"@,
        "list_web_devices"@,
        "revoke_web_device"@,
        "tailscale_status"@,
        "autostart_get"@,
        "autostart_set"@,
        "backup_now"@,
        "list_backups"@,
        "restore_backup"@,
        "codex_set_path"@,
    ]
}

fn web_blocked_commands_exec() -> (r: Vec<Vec<char>>)
    ensures
        views(r@) == web_blocked_commands(),
{
    let mut r: Vec<Vec<char>> = Vec::new();
    r.push(chars_of("add_attachment"));
    r.push(chars_of("add_part_attachment"));
    r.push(chars_of("add_template_asset"));
    r.push(chars_of("analyze_tex_file"));
    r.push(chars_of("import_template_from_tex"));
    r.push(chars_of("import_template_file"));
    r.push(chars_of("export_template"));
    r.push(chars_of("export_bank"));
    r.push(chars_of("import_bank"));
    r.push(chars_of("read_compiled_file"));
    r.push(chars_of("detect_graph_app_path"));
    r.push(chars_of("test_graph_integration_settings"));
    r.push(chars_of("start_graph_integration"));
    r.push(chars_of("poll_graph_integration"));
    r.push(chars_of("server_status"));
    r.push(chars_of("server_start"));
    r.push(chars_of("server_stop"));
    r.push(chars_of("server_regen_pairing"));
    r.push(chars_of("server_settings_get"));
    r.push(chars_of("server_settings_set"));
    r.push(chars_of("list_web_devices"));
    r.push(chars_of("revoke_web_device"));
    r.push(chars_of("tailscale_status"));
    r.push(chars_of("autostart_get"));
    r.push(chars_of("autostart_set"));
    r.push(chars_of("backup_now"));
    r.push(chars_of("list_backups"));
    r.push(chars_of("restore_backup"));
    r.push(chars_of("codex_set_path"));
    assert(views(r@) =~= web_blocked_commands());
    r
}

/// Commands that change the bank tree.
pub open spec fn tree_commands() -> Seq<Seq<char>> {
    seq![
        "add_tree_node"@,
        "rename_tree_node"@,
        "delete_tree_node"@,
        "move_tree_node"@,
    ]
}

fn tree_commands_exec() -> (r: Vec<Vec<char>>)
    ensures
        views(r@) == tree_commands(),
{
    let mut r: Vec<Vec<char>> = Vec::new();
    r.push(chars_of("add_tree_node"));
    r.push(chars_of("rename_tree_node"));
    r.push(chars_of("delete_tree_node"));
    r.push(chars_of("move_tree_node"));
    assert(views(r@) =~= tree_commands());
    r
}

/// Commands that change the problems.
pub open spec fn problems_commands() -> Seq<Seq<char>> {
    seq![
        "create_problem"@,
        "update_problem"@,
        "duplicate_problem"@,
        "delete_problem"@,
        "restore_version"@,
        "move_problems"@,
        "delete_problems"@,
        "import_bank"@,
        "add_attachment"@,
        "remove_attachment"@,
        "create_sample_data"@,
    ]
}

fn problems_commands_exec() -> (r: Vec<Vec<char>>)
    ensures
        views(r@) == problems_commands(),
{
    let mut r: Vec<Vec<char>> = Vec::new();
    r.push(chars_of("create_problem"));
    r.push(chars_of("update_problem"));
    r.push(chars_of("duplicate_problem"));
    r.push(chars_of("delete_problem"));
    r.push(chars_of("restore_version"));
    r.push(chars_of("move_problems"));
    r.push(chars_of("delete_problems"));
    r.push(chars_of("import_bank"));
    r.push(chars_of("add_attachment"));
    r.push(chars_of("remove_attachment"));
    r.push(chars_of("create_sample_data"));
    assert(views(r@) =~= problems_commands());
    r
}

/// Commands that change the documents.
pub open spec fn projects_commands() -> Seq<Seq<char>> {
    seq![
        "create_project"@,
        "update_project_meta"@,
        "delete_project"@,
        "duplicate_project"@,
        "add_problem_to_project"@,
        "add_part_to_project"@,
        "add_content_item"@,
        "update_project_item"@,
        "refresh_item_from_bank"@,
        "refresh_part_item_from_library"@,
        "remove_project_item"@,
        "reorder_project_items"@,
        "update_project_settings"@,
        "set_project_template"@,
        "refresh_project_template"@,
        "insert_graph_to_project"@,
    ]
}

fn projects_commands_exec() -> (r: Vec<Vec<char>>)
    ensures
        views(r@) == projects_commands(),
{
    let mut r: Vec<Vec<char>> = Vec::new();
    r.push(chars_of("create_project"));
    r.push(chars_of("update_project_meta"));
    r.push(chars_of("delete_project"));
    r.push(chars_of("duplicate_project"));
    r.push(chars_of("add_problem_to_project"));
    r.push(chars_of("add_part_to_project"));
    r.push(chars_of("add_content_item"));
    r.push(chars_of("update_project_item"));
    r.push(chars_of("refresh_item_from_bank"));
    r.push(chars_of("refresh_part_item_from_library"));
    r.push(chars_of("remove_project_item"));
    r.push(chars_of("reorder_project_items"));
    r.push(chars_of("update_project_settings"));
    r.push(chars_of("set_project_template"));
    r.push(chars_of("refresh_project_template"));
    r.push(chars_of("insert_graph_to_project"));
    assert(views(r@) =~= projects_commands());
    r
}

/// Commands that change the parts.
pub open spec fn parts_commands() -> Seq<Seq<char>> {
    seq![
        "create_part"@,
        "update_part"@,
        "duplicate_part"@,
        "delete_part"@,
        "add_part_attachment"@,
        "remove_part_attachment"@,
    ]
}

fn parts_commands_exec() -> (r: Vec<Vec<char>>)
    ensures
        views(r@) == parts_commands(),
{
    let mut r: Vec<Vec<char>> = Vec::new();
    r.push(chars_of("create_part"));
    r.push(chars_of("update_part"));
    r.push(chars_of("duplicate_part"));
    r.push(chars_of("delete_part"));
    r.push(chars_of("add_part_attachment"));
    r.push(chars_of("remove_part_attachment"));
    assert(views(r@) =~= parts_commands());
    r
}

/// Commands that change the templates.
pub open spec fn templates_commands() -> Seq<Seq<char>> {
    seq![
        "create_template"@,
        "update_template"@,
        "delete_template"@,
        "duplicate_template"@,
        "restore_template_version"@,
        "import_template_from_tex"@,
        "import_template_file"@,
        "add_template_asset"@,
        "remove_template_asset"@,
    ]
}

fn templates_commands_exec() -> (r: Vec<Vec<char>>)
    ensures
        views(r@) == templates_commands(),
{
    let mut r: Vec<Vec<char>> = Vec::new();
    r.push(chars_of("create_template"));
    r.push(chars_of("update_template"));
    r.push(chars_of("delete_template"));
    r.push(chars_of("duplicate_template"));
    r.push(chars_of("restore_template_version"));
    r.push(chars_of("import_template_from_tex"));
    r.push(chars_of("import_template_file"));
    r.push(chars_of("add_template_asset"));
    r.push(chars_of("remove_template_asset"));
    assert(views(r@) =~= templates_commands());
    r
}

/// Commands that change the graphs.
pub open spec fn graphs_commands() -> Seq<Seq<char>> {
    seq![
        "create_graph"@,
        "update_graph"@,
        "duplicate_graph"@,
        "delete_graph"@,
        "restore_graph"@,
        "restore_graph_version"@,
        "save_graph_exports"@,
        "complete_graph_web_session"@,
        "ensure_graph_from_asset"@,
    ]
}

fn graphs_commands_exec() -> (r: Vec<Vec<char>>)
    ensures
        views(r@) == graphs_commands(),
{
    let mut r: Vec<Vec<char>> = Vec::new();
    r.push(chars_of("create_graph"));
    r.push(chars_of("update_graph"));
    r.push(chars_of("duplicate_graph"));
    r.push(chars_of("delete_graph"));
    r.push(chars_of("restore_graph"));
    r.push(chars_of("restore_graph_version"));
    r.push(chars_of("save_graph_exports"));
    r.push(chars_of("complete_graph_web_session"));
    r.push(chars_of("ensure_graph_from_asset"));
    assert(views(r@) =~= graphs_commands());
    r
}

/// Commands that change the settings.
pub open spec fn settings_commands() -> Seq<Seq<char>> {
    seq![
        "set_settings"@,
    ]
}

fn settings_commands_exec() -> (r: Vec<Vec<char>>)
    ensures
        views(r@) == settings_commands(),
{
    let mut r: Vec<Vec<char>> = Vec::new();
    r.push(chars_of("set_settings"));
    assert(views(r@) =~= settings_commands());
    r
}

/// Whether a command may run for a caller of the given origin.
pub open spec fn allowed(cmd: Seq<char>, origin: Origin) -> bool {
    !(origin == Origin::Web && web_blocked_commands().contains(cmd))
}

/// Refuses a command that a browser may not run.
pub fn check_command_access(cmd: &str, origin: Origin) -> (r: Result<(), String>)
    ensures
        if allowed(cmd@, origin) {
            r is Ok
        } else {
            r matches Err(e) && e@ == "このコマンドはブラウザからは利用できません"@
        },
{
    if origin == Origin::Web {
        let c = chars_of(cmd);
        let blocked = web_blocked_commands_exec();
        if contains_seq(&blocked, &c) {
            return Err(crate::text::string_of(&chars_of("このコマンドはブラウザからは利用できません")));
        }
    }
    Ok(())
}

/// The change event that a successful command raises, if it changes anything.
pub open spec fn event_kind_of(cmd: Seq<char>) -> Option<Seq<char>> {
    if tree_commands().contains(cmd) {
        Some("tree"@)
    } else if problems_commands().contains(cmd) {
        Some("problems"@)
    } else if projects_commands().contains(cmd) {
        Some("projects"@)
    } else if parts_commands().contains(cmd) {
        Some("parts"@)
    } else if templates_commands().contains(cmd) {
        Some("templates"@)
    } else if graphs_commands().contains(cmd) {
        Some("graphs"@)
    } else if settings_commands().contains(cmd) {
        Some("settings"@)
    } else {
        None
    }
}

pub fn event_kind(cmd: &str) -> (r: Option<&'static str>)
    ensures
        match event_kind_of(cmd@) {
            Some(k) => r matches Some(x) && x@ == k,
            None => r is None,
        },
{
    let c = chars_of(cmd);
    if contains_seq(&tree_commands_exec(), &c) {
        Some("tree")
    } else if contains_seq(&problems_commands_exec(), &c) {
        Some("problems")
    } else if contains_seq(&projects_commands_exec(), &c) {
        Some("projects")
    } else if contains_seq(&parts_commands_exec(), &c) {
        Some("parts")
    } else if contains_seq(&templates_commands_exec(), &c) {
        Some("templates")
    } else if contains_seq(&graphs_commands_exec(), &c) {
        Some("graphs")
    } else if contains_seq(&settings_commands_exec(), &c) {
        Some("settings")
    } else {
        None
    }
}


/// A graph asset as a caller from `origin` sees it: a browser gets every
/// field but the four file paths, which are left empty; the desktop gets all.
pub open spec fn asset_as_seen(origin: Origin, o: GraphAssetSummary, a: GraphAssetSummary) -> bool {
    let web = origin == Origin::Web;
    &&& o.asset_id@ == a.asset_id@
    &&& o.graph_id@ == a.graph_id@
    &&& o.display_name@ == a.display_name@
    &&& o.project_id == a.project_id
    &&& o.problem_id == a.problem_id
    &&& o.item_id == a.item_id
    &&& o.source_application@ == a.source_application@
    &&& o.editable_source_path@ == (if web { Seq::empty() } else { a.editable_source_path@ })
    &&& o.primary_asset_path@ == (if web { Seq::empty() } else { a.primary_asset_path@ })
    &&& o.preview_asset_path@ == (if web { Seq::empty() } else { a.preview_asset_path@ })
    &&& o.latex_source_path@ == (if web { Seq::empty() } else { a.latex_source_path@ })
    &&& o.inserted_latex@ == a.inserted_latex@
    &&& o.created_at@ == a.created_at@
    &&& o.updated_at@ == a.updated_at@
    &&& o.version == a.version
}

fn path_for(origin: Origin, p: &String) -> (r: String)
    ensures
        r@ == (if origin == Origin::Web { Seq::<char>::empty() } else { p@ }),
{
    if origin == Origin::Web {
        let e = crate::text::string_of(&Vec::new());
        assert(e@ =~= Seq::<char>::empty());
        e
    } else {
        p.clone()
    }
}

/// The graph assets of a document as they are sent to a caller: absolute file
/// paths never reach a browser, which uses the graph and asset ids instead.
pub fn graph_assets_for(origin: Origin, assets: Vec<GraphAssetSummary>) -> (r: Vec<GraphAssetSummary>)
    ensures
        r.len() == assets.len(),
        forall|i: int| 0 <= i < r.len() ==> asset_as_seen(origin, #[trigger] r@[i], assets@[i]),
{
    let mut out: Vec<GraphAssetSummary> = Vec::new();
    let mut i: usize = 0;
    while i < assets.len()
        invariant
            i <= assets.len(),
            out.len() == i,
            forall|j: int| 0 <= j < i ==> asset_as_seen(origin, #[trigger] out@[j], assets@[j]),
        decreases assets.len() - i,
    {
        let a = &assets[i];
        let o = GraphAssetSummary {
            asset_id: a.asset_id.clone(),
            graph_id: a.graph_id.clone(),
            display_name: a.display_name.clone(),
            project_id: a.project_id,
            problem_id: a.problem_id,
            item_id: a.item_id,
            source_application: a.source_application.clone(),
            editable_source_path: path_for(origin, &a.editable_source_path),
            primary_asset_path: path_for(origin, &a.primary_asset_path),
            preview_asset_path: path_for(origin, &a.preview_asset_path),
            latex_source_path: path_for(origin, &a.latex_source_path),
            inserted_latex: a.inserted_latex.clone(),
            created_at: a.created_at.clone(),
            updated_at: a.updated_at.clone(),
            version: a.version,
        };
        let ghost before = out@;
        out.push(o);
        assert(out@ == before.push(o));
        i += 1;
    }
    out
}

} // verus!
