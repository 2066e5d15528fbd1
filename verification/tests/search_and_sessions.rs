use kyozai_kobo::graph_integration::{
    check_insert_target, completed_poll, next_asset_version, plan_manifest_import, poll_step, ManifestStatus, PollStep,
};
use kyozai_kobo::graph_web::{
    check_cancellable, check_completed_rows, check_completion, check_item_project, check_still_open,
    observed_status, safe_session_id, session_expiry, session_id_of, session_selection, validate_target_field,
    version_source, CompleteGraphWebSessionResult, CompletionRefusal, CreateGraphWebSessionPayload, GraphWebSession,
    VersionSource, MAX_CURSOR, SESSION_TTL_SECONDS,
};
use kyozai_kobo::graphs::{list_graphs, GraphSnapshotResult};
use kyozai_kobo::search::{
    search_parts, search_patterns, search_problems, PartSearchQuery, PatternSearchQuery, SearchQuery, SqlArg,
    PATTERN_SEARCH, ORDER_RECENT, PART_SELECT, PROBLEM_SELECT,
};
use kyozai_kobo::settings::{get_settings, set_settings};
use kyozai_kobo::tree::has_any_data;

#[test]
fn a_search_without_filters_lists_the_newest_problems() {
    let q = search_problems(&SearchQuery::default());
    assert_eq!(q.sql, format!("{}{}", PROBLEM_SELECT, ORDER_RECENT));
    assert!(q.args.is_empty());
}

#[test]
fn search_text_is_trimmed_and_bound_once_for_every_column() {
    let q = search_problems(&SearchQuery { text: "  二次関数 ".into(), ..Default::default() });
    assert_eq!(q.args, vec![SqlArg::Text("%二次関数%".into())]);
    assert_eq!(q.sql.matches("LIKE ?1").count(), 7);
    assert!(!q.sql.contains("?2"));
}

#[test]
fn problem_filters_are_numbered_in_order() {
    let q = search_problems(&SearchQuery {
        text: "x".into(),
        bank_node_id: Some(7),
        subject_id: Some(1),
        field_id: Some(2),
        unit_id: Some(3),
        difficulty: Some("易".into()),
        tag: Some("微分".into()),
        required_filter: Some("required".into()),
        ..Default::default()
    });
    assert_eq!(
        q.args,
        vec![
            SqlArg::Text("%x%".into()),
            SqlArg::Int(7),
            SqlArg::Int(1),
            SqlArg::Int(2),
            SqlArg::Int(3),
            SqlArg::Text("易".into()),
            SqlArg::Text("微分".into()),
        ]
    );
    // Descendants are searched unless asked otherwise.
    assert!(q.sql.contains("WITH RECURSIVE descendants(id) AS (SELECT id FROM bank_nodes WHERE id=?2"));
    assert!(q.sql.contains(" AND s.id = ?3 AND f.id = ?4 AND u.id = ?5 AND p.difficulty = ?6"));
    assert!(q.sql.contains(" AND p.is_required != 0"));
    assert!(q.sql.contains("t.name = ?7)"));
    assert!(q.sql.ends_with(ORDER_RECENT));
}

#[test]
fn a_problem_search_can_stay_in_one_folder() {
    let q = search_problems(&SearchQuery {
        bank_node_id: Some(9),
        include_descendants: Some(false),
        ..Default::default()
    });
    assert_eq!(q.sql, format!("{} AND p.bank_node_id=?1{}", PROBLEM_SELECT, ORDER_RECENT));
    assert_eq!(q.args, vec![SqlArg::Int(9)]);
}

#[test]
fn ranks_are_normalised_and_unset_is_its_own_clause() {
    let q = search_problems(&SearchQuery {
        difficulty_ranks: Some(vec![" a".into(), "__unset".into(), "z".into(), "c".into()]),
        difficulty_rank: Some("B".into()),
        ..Default::default()
    });
    assert_eq!(q.args, vec![SqlArg::Text("A".into()), SqlArg::Text("C".into())]);
    assert!(q.sql.contains(
        " AND (p.difficulty_rank IN (?1,?2) OR (p.difficulty_rank IS NULL OR p.difficulty_rank=''))"
    ));
}

#[test]
fn the_single_rank_is_used_when_no_listed_rank_is_valid() {
    let q = search_problems(&SearchQuery {
        difficulty_ranks: Some(vec!["x".into()]),
        difficulty_rank: Some(" d ".into()),
        ..Default::default()
    });
    assert_eq!(q.args, vec![SqlArg::Text("D".into())]);
    assert!(q.sql.contains(" AND (p.difficulty_rank IN (?1))"));
    let none = search_problems(&SearchQuery { difficulty_ranks: Some(vec!["__unset".into()]), ..Default::default() });
    assert!(none.args.is_empty());
    assert!(none.sql.contains(" AND ((p.difficulty_rank IS NULL OR p.difficulty_rank=''))"));
}

#[test]
fn blank_text_filters_and_unknown_required_values_add_nothing() {
    let q = search_problems(&SearchQuery {
        text: "   ".into(),
        difficulty: Some(String::new()),
        tag: Some(String::new()),
        required_filter: Some("maybe".into()),
        ..Default::default()
    });
    assert_eq!(q.sql, format!("{}{}", PROBLEM_SELECT, ORDER_RECENT));
    let not_required = search_problems(&SearchQuery { required_filter: Some("not_required".into()), ..Default::default() });
    assert!(not_required.sql.contains(" AND p.is_required = 0"));
}

#[test]
fn part_search_searches_the_subtree_only_when_asked() {
    let exact = search_parts(&PartSearchQuery { bank_node_id: Some(4), ..Default::default() });
    assert_eq!(exact.sql, format!("{} AND p.bank_node_id = ?1{}", PART_SELECT, ORDER_RECENT));
    let deep = search_parts(&PartSearchQuery {
        bank_node_id: Some(4),
        include_descendants: Some(true),
        ..Default::default()
    });
    assert!(deep.sql.contains("WITH RECURSIVE subtree(id)"));
    assert_eq!(deep.args, vec![SqlArg::Int(4)]);
}

#[test]
fn part_filters_cover_kind_category_and_unassigned_parts() {
    let q = search_parts(&PartSearchQuery {
        text: "積分".into(),
        unit_id: Some(5),
        unassigned_only: Some(true),
        part_type: Some("hint".into()),
        category: Some("公式".into()),
        tag: Some("頻出".into()),
        ..Default::default()
    });
    assert_eq!(
        q.args,
        vec![
            SqlArg::Text("%積分%".into()),
            SqlArg::Int(5),
            SqlArg::Text("hint".into()),
            SqlArg::Text("公式".into()),
            SqlArg::Text("頻出".into()),
        ]
    );
    assert_eq!(q.sql.matches("LIKE ?1").count(), 9);
    assert!(q.sql.contains(" AND p.unit_id = ?2 AND p.bank_node_id IS NULL AND p.part_type = ?3 AND p.category = ?4"));
    assert!(q.sql.contains("pt.tag = ?5)"));
}

#[test]
fn deleted_graphs_are_listed_only_when_asked() {
    assert!(list_graphs(None).contains("FROM graphs g WHERE g.deleted_at='' ORDER BY g.updated_at DESC"));
    assert!(list_graphs(Some(false)).contains("WHERE g.deleted_at=''"));
    assert!(list_graphs(Some(true)).ends_with("FROM graphs g  ORDER BY g.updated_at DESC"));
}

#[test]
fn settings_show_where_the_data_lives_and_never_store_it() {
    let all = get_settings(
        vec![
            ("output_dir".into(), "C:\\out".into()),
            ("data_dir".into(), "stale".into()),
            ("output_dir".into(), "D:\\out".into()),
        ],
        "/data".into(),
    );
    assert_eq!(all.len(), 2);
    assert!(all.contains(&("output_dir".to_string(), "D:\\out".to_string())));
    assert!(all.contains(&("data_dir".to_string(), "/data".to_string())));
    let stored = set_settings(vec![("data_dir".into(), "x".into()), ("graph_app_path".into(), "a.exe".into())]);
    assert_eq!(stored, vec![("graph_app_path".to_string(), "a.exe".to_string())]);
}

#[test]
fn the_bank_has_data_once_it_has_a_subject() {
    assert!(!has_any_data(0));
    assert!(has_any_data(3));
}

fn payload() -> CreateGraphWebSessionPayload {
    CreateGraphWebSessionPayload {
        project_id: Some(1),
        problem_id: None,
        item_id: Some(10),
        target_field: "project_item_answer".into(),
        selection_start: Some(3),
        selection_end: None,
    }
}

fn session(status: &str) -> GraphWebSession {
    GraphWebSession {
        session_id: format!("graphsession_{}", "a".repeat(32)),
        status: status.into(),
        project_id: Some(1),
        item_id: Some(10),
        target_field: "project_item_answer".into(),
        expected_target_version: 4,
        expires_at: 1000,
        ..Default::default()
    }
}

#[test]
fn session_ids_are_the_prefix_and_32_hex_digits() {
    let id = session_id_of(&"0123456789abcdefABCDEF0123456789".to_string());
    assert!(safe_session_id(&id));
    assert!(!safe_session_id("graphsession_0123"));
    assert!(!safe_session_id(&format!("graphsession_{}", "g".repeat(32))));
    assert!(!safe_session_id(&format!("session_{}", "a".repeat(32))));
}

#[test]
fn graph_insertion_targets_name_a_field_of_their_kind() {
    assert_eq!(validate_target_field(&payload()), Ok(()));
    let mut p = payload();
    p.target_field = "problem_answer".into();
    assert_eq!(validate_target_field(&p), Err("グラフ挿入先フィールドが不正です".to_string()));
    p.item_id = None;
    p.problem_id = Some(2);
    assert_eq!(validate_target_field(&p), Ok(()));
    let none = CreateGraphWebSessionPayload { target_field: "project_text".into(), ..Default::default() };
    assert_eq!(validate_target_field(&none), Err("グラフ挿入先が指定されていません".to_string()));
    let text = CreateGraphWebSessionPayload { project_id: Some(1), target_field: "project_text".into(), ..Default::default() };
    assert_eq!(validate_target_field(&text), Ok(()));
}

#[test]
fn the_selection_defaults_to_a_cursor_and_is_bounded() {
    assert_eq!(session_selection(&payload()), Ok((3, 3)));
    let mut p = payload();
    p.selection_start = None;
    assert_eq!(session_selection(&p), Ok((0, 0)));
    p.selection_start = Some(5);
    p.selection_end = Some(2);
    assert_eq!(session_selection(&p), Err("グラフ挿入位置が不正です".to_string()));
    p.selection_start = Some(0);
    p.selection_end = Some(MAX_CURSOR + 1);
    assert!(session_selection(&p).is_err());
    assert_eq!(session_expiry(100), 100 + SESSION_TTL_SECONDS);
}

#[test]
fn a_session_watches_the_item_then_the_problem_then_the_document() {
    assert_eq!(version_source(Some(1), Some(2), Some(3)), Ok(VersionSource::Item(3)));
    assert_eq!(version_source(Some(1), Some(2), None), Ok(VersionSource::Problem(2)));
    assert_eq!(version_source(Some(1), None, None), Ok(VersionSource::Project(1)));
    assert!(version_source(None, None, None).is_err());
    assert_eq!(check_item_project(Some(1), 1), Ok(()));
    assert_eq!(check_item_project(None, 8), Ok(()));
    assert_eq!(check_item_project(Some(1), 2), Err("教材項目と教材プロジェクトが一致しません".to_string()));
}

#[test]
fn pending_sessions_expire_and_only_pending_ones_can_be_cancelled() {
    assert_eq!(observed_status("pending", 10, 11), "expired");
    assert_eq!(observed_status("pending", 10, 10), "pending");
    assert_eq!(observed_status("completed", 10, 11), "completed");
    assert_eq!(check_cancellable("pending"), Ok(()));
    assert_eq!(check_cancellable("cancelled"), Err("このグラフ連携sessionは既に終了しています".to_string()));
}

#[test]
fn completion_is_refused_in_the_order_of_the_checks() {
    let s = session("pending");
    assert_eq!(check_completion(&s, 900, Ok(4), Some(2), 2), Ok(()));
    assert_eq!(check_completion(&session("completed"), 900, Ok(4), Some(2), 2), Err(CompletionRefusal::Ended));
    assert_eq!(check_completion(&s, 1001, Ok(4), Some(2), 2), Err(CompletionRefusal::Expired));
    assert_eq!(
        check_completion(&s, 900, Err("教材項目が見つかりません".into()), Some(2), 2),
        Err(CompletionRefusal::Target("教材項目が見つかりません".into()))
    );
    let changed = check_completion(&s, 900, Ok(5), Some(2), 2).unwrap_err();
    assert_eq!(changed, CompletionRefusal::TargetChanged(5));
    assert_eq!(changed.message(), "CONFLICT:5");
    assert_eq!(check_completion(&s, 900, Ok(4), None, 2), Err(CompletionRefusal::GraphMissing));
    let graph = check_completion(&s, 900, Ok(4), Some(3), 2).unwrap_err();
    assert_eq!(graph.message(), "CONFLICT:3");
    assert_eq!(CompletionRefusal::Expired.message(), "グラフ連携sessionの有効期限が切れました");
}

#[test]
fn completion_is_checked_again_inside_the_transaction() {
    let s = session("pending");
    let target = check_still_open(&s, 900, Ok(4)).unwrap();
    assert_eq!((target.project_id, target.problem_id, target.item_id), (Some(1), None, Some(10)));
    assert_eq!(check_still_open(&s, 900, Ok(6)).unwrap_err(), "CONFLICT:6");
    assert_eq!(check_still_open(&s, 1001, Ok(4)).unwrap_err(), "このグラフ連携sessionは終了または期限切れです");
    assert_eq!(check_completed_rows(1), Ok(()));
    assert!(check_completed_rows(0).is_err());
    let done = CompleteGraphWebSessionResult {
        session: s,
        snapshot: GraphSnapshotResult { asset_id: "graphasset_1".into(), inserted_latex: String::new() },
    };
    assert_eq!(done.snapshot.asset_id, "graphasset_1");
}

#[test]
fn insert_targets_are_blank_or_tokens() {
    assert_eq!(check_insert_target(""), Ok(()));
    assert_eq!(check_insert_target("   "), Ok(()));
    assert_eq!(check_insert_target("statement_1-a"), Ok(()));
    assert_eq!(check_insert_target("a b"), Err("insert target contains unsafe characters".to_string()));
}

fn manifest(status: &str) -> ManifestStatus {
    ManifestStatus { request_id: "req_1".into(), status: status.into(), error_message: None, error_details: None }
}

#[test]
fn a_poll_reports_waiting_cancelled_or_failed_and_asks_to_import_when_done() {
    match poll_step("req_1", "req_1", None).unwrap() {
        PollStep::Report(p) => {
            assert_eq!(p.status, "pending");
            assert_eq!(p.message, "Waiting for graph app output.");
        },
        PollStep::Import => panic!("nothing to import yet"),
    }
    assert!(matches!(poll_step("req_1", "req_1", Some(manifest("completed"))), Ok(PollStep::Import)));
    match poll_step("req_1", "req_1", Some(manifest("cancelled"))).unwrap() {
        PollStep::Report(p) => assert_eq!((p.status.as_str(), p.message.as_str()), ("cancelled", "Graph insertion was cancelled.")),
        PollStep::Import => panic!("cancelled"),
    }
    let mut failed = manifest("failed");
    match poll_step("req_1", "req_1", Some(failed.clone())).unwrap() {
        PollStep::Report(p) => assert_eq!(p.message, "Graph app reported a failure."),
        PollStep::Import => panic!("failed"),
    }
    failed.error_message = Some("disk full".into());
    failed.error_details = Some("E42".into());
    match poll_step("req_1", "req_1", Some(failed)).unwrap() {
        PollStep::Report(p) => {
            assert_eq!(p.message, "disk full");
            assert_eq!(p.details, Some("E42".to_string()));
        },
        PollStep::Import => panic!("failed"),
    }
}

#[test]
fn a_poll_refuses_mismatched_or_unsafe_requests() {
    assert_eq!(poll_step("../x", "../x", None).unwrap_err(), "request id contains unsafe characters");
    assert_eq!(poll_step("req_1", "req_2", None).unwrap_err(), "request id does not match the request file");
    let mut other = manifest("completed");
    other.request_id = "req_9".into();
    assert_eq!(poll_step("req_1", "req_1", Some(other)).unwrap_err(), "manifest requestId does not match");
    assert_eq!(
        poll_step("req_1", "req_1", Some(manifest("paused"))).unwrap_err(),
        "unsupported manifest status: paused"
    );
}

#[test]
fn a_finished_graph_keeps_safe_ids_and_gets_fresh_ones_otherwise() {
    let plan = plan_manifest_import(
        None,
        true,
        Some("graph_abc".into()),
        Some("  ".into()),
        Some("asset_1".into()),
        Some("0.5\\linewidth".into()),
        "t1",
        "t2",
    )
    .unwrap();
    assert_eq!(plan.graph_id, "graph_abc");
    assert_eq!(plan.display_name, "Graph");
    assert_eq!(plan.asset_id, "asset_1");
    assert!(plan.is_update);
    assert_eq!(plan.width, "0.5\\linewidth");
    let fresh = plan_manifest_import(Some(1), true, Some("../x".into()), Some("放物線".into()), Some("a b".into()), None, "t1", "t2")
        .unwrap();
    assert_eq!(fresh.graph_id, "graph_t1");
    assert_eq!(fresh.asset_id, "graph_t2");
    assert_eq!(fresh.display_name, "放物線");
    assert!(!fresh.is_update);
    assert_eq!(fresh.width, "0.72\\linewidth");
    assert_eq!(
        plan_manifest_import(Some(2), true, None, None, None, None, "a", "b").unwrap_err(),
        "unsupported manifest protocol version"
    );
    assert_eq!(
        plan_manifest_import(None, false, None, None, None, None, "a", "b").unwrap_err(),
        "completed manifest does not contain graph metadata"
    );
    assert_eq!(next_asset_version(None), 1);
    assert_eq!(next_asset_version(Some(4)), 5);
    let poll = completed_poll("req_1".into(), &fresh, "\\includegraphics".into());
    assert_eq!(poll.status, "completed");
    assert_eq!(poll.message, "Graph asset imported.");
    assert_eq!(poll.asset_id.as_deref(), Some("graph_t2"));
}

#[test]
fn pattern_search_binds_every_filter_and_a_bounded_page() {
    let q = search_patterns(&PatternSearchQuery::default());
    assert_eq!(q.sql, PATTERN_SEARCH);
    assert_eq!(
        q.args,
        vec![
            SqlArg::Int(1),
            SqlArg::Text("%%".into()),
            SqlArg::Null,
            SqlArg::Null,
            SqlArg::Null,
            SqlArg::Null,
            SqlArg::Null,
            SqlArg::Null,
            SqlArg::Null,
            SqlArg::Null,
            SqlArg::Int(100),
            SqlArg::Int(0),
        ]
    );
    let q = search_patterns(&PatternSearchQuery {
        text: " 置換 ".into(),
        tag: Some("積分".into()),
        goal: Some("".into()),
        exclude_id: Some(7),
        limit: Some(500),
        offset: Some(-3),
        ..Default::default()
    });
    assert_eq!(q.args[0], SqlArg::Int(0));
    assert_eq!(q.args[1], SqlArg::Text("%置換%".into()));
    assert_eq!(q.args[3], SqlArg::Text("積分".into()));
    assert_eq!(q.args[5], SqlArg::Text("".into()));
    assert_eq!(q.args[9], SqlArg::Int(7));
    assert_eq!(q.args[10], SqlArg::Int(200));
    assert_eq!(q.args[11], SqlArg::Int(0));
    assert_eq!(search_patterns(&PatternSearchQuery { limit: Some(0), ..Default::default() }).args[10], SqlArg::Int(1));
}
