use kyozai_kobo::dispatch::{check_command_access, event_kind, Origin};
use kyozai_kobo::graph_integration::{
    detect_graph_app_path, is_debug_graph_executable, is_safe_token, make_latex, safe_width,
    test_graph_integration_settings,
};
use kyozai_kobo::parts::{normalize_layout_mode, normalize_output_target, normalize_part_type, part_title, plain_preview};
use kyozai_kobo::templates::template_name;
use kyozai_kobo::problems::normalize_rank;
use kyozai_kobo::settings::{get_web_settings, set_web_settings, validate_web_setting};
use kyozai_kobo::tree::{
    check_bank_move, get_bank_tree, move_tree_node, reorder_bank_node, table_for, FlatBankNode,
    MOVE_INTO_DESCENDANT, MOVE_INTO_ITSELF, MOVE_TARGET_MISSING,
};

#[test]
fn part_kinds_targets_and_layouts_are_normalised() {
    assert_eq!(normalize_part_type(" hint "), "hint");
    assert_eq!(normalize_part_type("poster"), "custom");
    assert_eq!(normalize_output_target(" answers "), "answers");
    assert_eq!(normalize_output_target("everywhere"), "both");
    assert_eq!(normalize_layout_mode("two_column"), "two_column");
    assert_eq!(normalize_layout_mode("three"), "single_column");
}

#[test]
fn part_preview_is_one_line_of_at_most_180_characters() {
    assert_eq!(plain_preview("  a \n\n b\r\nc  "), "a b c");
    let long = "x".repeat(300);
    assert_eq!(plain_preview(&long).chars().count(), 180);
}

#[test]
fn ranks_are_upper_cased_and_limited_to_a_to_d() {
    assert_eq!(normalize_rank(Some(" b ".into())), Some("B".to_string()));
    assert_eq!(normalize_rank(Some("E".into())), None);
    assert_eq!(normalize_rank(None), None);
}

#[test]
fn browsers_see_and_set_only_the_preview_template() {
    assert_eq!(validate_web_setting("preview_template_id", "123"), Ok(()));
    assert_eq!(validate_web_setting("preview_template_id", ""), Ok(()));
    assert_eq!(
        validate_web_setting("preview_template_id", "12a"),
        Err("プレビューテンプレートIDが不正です".to_string())
    );
    assert_eq!(
        validate_web_setting("output_dir", "x"),
        Err("設定 output_dir はブラウザから変更できません".to_string())
    );
    let all = vec![
        ("output_dir".to_string(), "C:/x".to_string()),
        ("preview_template_id".to_string(), "3".to_string()),
    ];
    assert_eq!(get_web_settings(&all), vec![("preview_template_id".to_string(), "3".to_string())]);
    assert!(set_web_settings(all).is_err());
    let ok = vec![("preview_template_id".to_string(), "4".to_string())];
    assert_eq!(set_web_settings(ok.clone()), Ok(ok));
}

#[test]
fn browsers_cannot_run_host_commands() {
    assert_eq!(
        check_command_access("import_bank", Origin::Web),
        Err("このコマンドはブラウザからは利用できません".to_string())
    );
    assert_eq!(check_command_access("import_bank", Origin::Desktop), Ok(()));
    assert_eq!(check_command_access("list_graphs", Origin::Web), Ok(()));
    assert_eq!(event_kind("create_problem"), Some("problems"));
    assert_eq!(event_kind("insert_graph_to_project"), Some("projects"));
    assert_eq!(event_kind("set_settings"), Some("settings"));
    assert_eq!(event_kind("list_graphs"), None);
}

#[test]
fn graph_editor_tokens_widths_and_latex() {
    assert!(is_safe_token("req-1_A"));
    assert!(!is_safe_token("a b"));
    assert!(!is_safe_token(&"a".repeat(81)));
    assert_eq!(safe_width(None), "0.72\\linewidth");
    assert_eq!(safe_width(Some(" 5cm ")), "5cm");
    assert_eq!(safe_width(Some("\\evil;")), "0.72\\linewidth");
    assert_eq!(
        make_latex("a1", "graph.pdf", "5cm"),
        "\n\\noindent\\includegraphics[width=5cm,height=0.28\\textheight,keepaspectratio]{assets/graphs/a1/graph.pdf}\\par\\smallskip\n"
    );
}

#[test]
fn release_builds_of_the_graph_editor_are_preferred() {
    assert!(is_debug_graph_executable("C:/x/Target/Debug/app.exe"));
    assert!(!is_debug_graph_executable("C:/x/target/release/app.exe"));
    let cands = vec![
        ("C:/a/target/debug/m.exe".to_string(), true),
        ("C:/b/m.exe".to_string(), false),
        ("C:/c/m.exe".to_string(), true),
    ];
    assert_eq!(detect_graph_app_path(None, &cands), Some("C:/c/m.exe".to_string()));
    assert_eq!(
        detect_graph_app_path(Some(("D:/m.exe".to_string(), true)), &cands),
        Some("D:/m.exe".to_string())
    );
    assert_eq!(
        detect_graph_app_path(Some(("D:/target/debug/m.exe".to_string(), true)), &cands),
        Some("C:/c/m.exe".to_string())
    );
    assert_eq!(detect_graph_app_path(None, &vec![("x".to_string(), false)]), None);
    let r = test_graph_integration_settings(None, false);
    assert!(!r.ok && r.path.is_none());
    let r = test_graph_integration_settings(Some("C:/c/m.exe".into()), true);
    assert!(r.ok);
    assert_eq!(r.message, "Graph app executable is available.");
}

fn folder(id: i64, parent: Option<i64>) -> FlatBankNode {
    FlatBankNode { id, parent_id: parent, name: format!("n{id}"), ..Default::default() }
}

#[test]
fn bank_folders_form_a_tree_and_cycles_are_cut() {
    let flat = vec![folder(1, None), folder(2, Some(1)), folder(3, Some(2)), folder(4, None), folder(5, Some(6)), folder(6, Some(5))];
    let tree = get_bank_tree(&flat);
    assert_eq!(tree.len(), 2);
    assert_eq!(tree[0].id, 1);
    assert_eq!(tree[0].children.len(), 1);
    assert_eq!(tree[0].children[0].children[0].name, "n3");
    assert_eq!(tree[1].id, 4);
    assert!(tree[1].children.is_empty());
    let looped = vec![folder(7, None), folder(7, Some(7))];
    let tree = get_bank_tree(&looped);
    assert_eq!(tree.len(), 1);
    assert!(tree[0].children.is_empty());
}

#[test]
fn new_parts_and_templates_get_a_name_when_none_is_given() {
    assert_eq!(part_title("  漸化式 "), "漸化式");
    assert_eq!(part_title("   "), "新しい部品");
    assert_eq!(template_name(""), "新しいテンプレート");
    assert_eq!(template_name(" 標準 "), "標準");
}

#[test]
fn folder_moves_are_checked_against_the_stored_tree() {
    let flat = vec![folder(1, None), folder(2, Some(1)), folder(3, Some(2)), folder(4, None)];
    assert_eq!(check_bank_move(&flat, 3, None), Ok(()));
    assert_eq!(check_bank_move(&flat, 3, Some(4)), Ok(()));
    assert_eq!(check_bank_move(&flat, 2, Some(1)), Ok(()));
    assert_eq!(check_bank_move(&flat, 2, Some(2)), Err(MOVE_INTO_ITSELF.to_string()));
    assert_eq!(check_bank_move(&flat, 2, Some(9)), Err(MOVE_TARGET_MISSING.to_string()));
    assert_eq!(check_bank_move(&flat, 1, Some(3)), Err(MOVE_INTO_DESCENDANT.to_string()));
    assert_eq!(check_bank_move(&flat, 2, Some(3)), Err(MOVE_INTO_DESCENDANT.to_string()));
    assert_eq!(check_bank_move(&flat, 4, Some(3)), Ok(()));
}

#[test]
fn folders_move_one_place_among_their_siblings() {
    let s = vec![10, 20, 30];
    assert_eq!(reorder_bank_node(&s, 20, 5), Ok(Some(vec![10, 30, 20])));
    assert_eq!(reorder_bank_node(&s, 20, -7), Ok(Some(vec![20, 10, 30])));
    assert_eq!(reorder_bank_node(&s, 20, 0), Ok(None));
    assert_eq!(reorder_bank_node(&s, 30, 1), Ok(None));
    assert_eq!(reorder_bank_node(&s, 10, -1), Ok(None));
    assert_eq!(reorder_bank_node(&s, 99, 1), Err("階層が見つかりません".to_string()));
    let moved = reorder_bank_node(&s, 10, 1).unwrap().unwrap();
    assert_eq!(reorder_bank_node(&moved, 10, -1), Ok(Some(s.clone())));
}

#[test]
fn tree_nodes_exchange_with_the_sibling_delta_places_away() {
    let s = vec![1, 2, 3, 4];
    assert_eq!(move_tree_node(&s, 1, 2), Ok(Some(vec![3, 2, 1, 4])));
    assert_eq!(move_tree_node(&s, 2, 0), Ok(Some(vec![1, 2, 3, 4])));
    assert_eq!(move_tree_node(&s, 4, 1), Ok(None));
    assert_eq!(move_tree_node(&s, 1, i64::MIN), Ok(None));
    assert_eq!(move_tree_node(&s, 5, 1), Err("対象が見つかりません".to_string()));
    assert_eq!(table_for("subject"), Ok(("subjects", None)));
    assert_eq!(table_for("field"), Ok(("fields", Some("subject_id"))));
    assert_eq!(table_for("unit"), Ok(("units", Some("field_id"))));
    assert_eq!(table_for("chapter"), Err("不明な階層種別: chapter".to_string()));
}

#[test]
fn siblings_keep_the_stored_place_order() {
    let at = |id: i64, parent: Option<i64>, order: i64| FlatBankNode { sort_order: order, ..folder(id, parent) };
    // Listed by (place, id), as the store lists them.
    let flat = vec![at(5, None, 1), at(2, Some(5), 1), at(8, Some(5), 1), at(1, None, 2), at(3, Some(5), 2)];
    let tree = get_bank_tree(&flat);
    assert_eq!(tree.iter().map(|n| n.id).collect::<Vec<_>>(), vec![5, 1]);
    assert_eq!(tree[0].children.iter().map(|n| (n.sort_order, n.id)).collect::<Vec<_>>(), vec![(1, 2), (1, 8), (2, 3)]);
}
