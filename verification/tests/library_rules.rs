use kyozai_kobo::dispatch::{graph_assets_for, Origin};
use kyozai_kobo::graph_check::{check_graph_header, check_known_keys, check_vertex_names, is_hex_color, is_plain_short};
use kyozai_kobo::graph_integration::GraphAssetSummary;
use kyozai_kobo::models::PatternProposal;
use kyozai_kobo::patterns::{
    check_pattern_library, child_relations, gather_candidates, new_pattern_fields, proposal_target, ProposalTarget,
};
use kyozai_kobo::tree::{delete_bank_node, moved_child_orders, DeletePlan};

#[test]
fn folder_deletion_follows_the_strategy() {
    assert_eq!(delete_bank_node("move_to_parent", Some(4)), Ok(DeletePlan::MoveToParent(4)));
    assert_eq!(delete_bank_node("move_to_parent", None), Err("ルート階層には移動先の親がありません".to_string()));
    assert_eq!(delete_bank_node("delete_all", None), Ok(DeletePlan::DeleteAll));
    assert_eq!(delete_bank_node("cancel", Some(1)), Err("削除方法が不正です".to_string()));
    assert_eq!(moved_child_orders(&vec![7, 3, 9], 5), vec![(7, 5), (3, 6), (9, 7)]);
    assert!(moved_child_orders(&vec![], 1).is_empty());
}

#[test]
fn browsers_never_see_asset_paths() {
    let a = GraphAssetSummary {
        asset_id: "a1".into(),
        graph_id: "g1".into(),
        editable_source_path: "C:/data/g1.json".into(),
        primary_asset_path: "C:/data/g1.pdf".into(),
        preview_asset_path: "C:/data/g1.png".into(),
        latex_source_path: "C:/data/g1.tex".into(),
        inserted_latex: "\\includegraphics{g1}".into(),
        version: 3,
        ..Default::default()
    };
    let web = graph_assets_for(Origin::Web, vec![a.clone()]);
    assert_eq!(web.len(), 1);
    assert_eq!(web[0].asset_id, "a1");
    assert_eq!(web[0].inserted_latex, "\\includegraphics{g1}");
    assert_eq!(web[0].version, 3);
    assert!(web[0].editable_source_path.is_empty() && web[0].primary_asset_path.is_empty());
    assert!(web[0].preview_asset_path.is_empty() && web[0].latex_source_path.is_empty());
    let desk = graph_assets_for(Origin::Desktop, vec![a]);
    assert_eq!(desk[0].primary_asset_path, "C:/data/g1.pdf");
    assert_eq!(desk[0].latex_source_path, "C:/data/g1.tex");
}

#[test]
fn only_the_known_pattern_library_format_is_read() {
    assert_eq!(check_pattern_library("kyozai-kobo-pattern-library", 1), Ok(()));
    assert_eq!(check_pattern_library("kyozai-kobo-pattern-library", 2), Err("対応していない定石ライブラリ形式です".to_string()));
    assert_eq!(check_pattern_library("other", 1), Err("対応していない定石ライブラリ形式です".to_string()));
}

#[test]
fn proposals_go_to_the_chosen_pattern() {
    assert_eq!(proposal_target("create_new", Some(1), Some(2), Some(3)), Ok(ProposalTarget::Create(None)));
    assert_eq!(proposal_target("create_child_pattern", Some(1), Some(2), Some(3)), Ok(ProposalTarget::Create(Some(1))));
    assert_eq!(proposal_target("create_child_pattern", None, Some(2), Some(3)), Ok(ProposalTarget::Create(Some(2))));
    assert_eq!(proposal_target("create_child_pattern", None, None, Some(3)), Ok(ProposalTarget::Create(Some(3))));
    assert_eq!(
        proposal_target("create_child_pattern", None, None, None),
        Err("上位となる既存定石を選択してください".to_string())
    );
    assert_eq!(proposal_target("merge_into_existing", Some(1), None, Some(3)), Ok(ProposalTarget::Existing(3)));
    assert_eq!(proposal_target("link_existing", None, Some(2), Some(3)), Ok(ProposalTarget::Existing(2)));
    assert_eq!(proposal_target("add_caution_to_existing", Some(1), None, None), Err("追記先の既存定石を選択してください".to_string()));
    assert_eq!(child_relations(4, 9), vec![(4, 9, "specialization"), (9, 4, "generalization")]);
}

#[test]
fn a_new_pattern_takes_the_cleaned_proposal() {
    let p = PatternProposal {
        title: " 置換積分 ".into(),
        summary: " 要約 ".into(),
        pattern_type: "  ".into(),
        situation: "場面 ".into(),
        principle: " 原理".into(),
        cautions: vec![" 符号 ".into(), "".into(), "符号".into(), "範囲".into()],
        source_type: "ai_inferred".into(),
        ..Default::default()
    };
    let f = new_pattern_fields(&p, "由来");
    assert_eq!(f.title, "置換積分");
    assert_eq!(f.summary, "要約");
    assert_eq!(f.pattern_type, "strategy");
    assert_eq!(f.situation, "場面");
    assert_eq!(f.principle, "原理");
    assert_eq!(f.cautions, "符号\n範囲");
    assert_eq!(f.source_note, "由来");
    assert_eq!(f.source_kind, "problem_ai_inferred");
}

#[test]
fn candidates_are_capped_and_ordered() {
    let hits = vec![vec![9, 3, 3], (100..120).collect::<Vec<i64>>(), vec![5]];
    let r = gather_candidates(&hits, &vec![(1, true), (2, false)]);
    // 10 of the second term's 20 hits, the first term's two ids, the third term's one, then id 1.
    let mut expected: Vec<i64> = vec![1, 3, 5, 9];
    expected.extend(100..110);
    assert_eq!(r, expected);
    let many: Vec<Vec<i64>> = (0..5).map(|t| (t * 10..t * 10 + 10).collect()).collect();
    let r = gather_candidates(&many, &vec![(1000, true)]);
    assert_eq!(r, (0..30).collect::<Vec<i64>>());
    let recent: Vec<(i64, bool)> = (0..300).map(|i| (i, i >= 199)).collect();
    assert_eq!(gather_candidates(&vec![], &recent), vec![199]);
}

#[test]
fn graph_documents_hold_only_known_keys_and_plain_values() {
    let keys = vec!["id".to_string(), "oops".to_string(), "zzz".to_string()];
    assert_eq!(check_known_keys("paper", &keys, &["id", "zzz"]), Err("paper.oops は未対応の項目です".to_string()));
    assert_eq!(check_known_keys("paper", &keys, &["id", "oops", "zzz"]), Ok(()));
    assert!(is_hex_color("#00aaFF"));
    assert!(!is_hex_color("#00aaFG"));
    assert!(!is_hex_color("00aaFF0"));
    assert!(!is_hex_color("#fff"));
    assert!(is_plain_short("ABC", 3));
    assert!(!is_plain_short("ABCD", 3));
    assert!(!is_plain_short("A\u{1}", 3));
    assert_eq!(check_vertex_names("g.vertexNames", None), Ok(()));
    assert_eq!(check_vertex_names("g.vertexNames", Some(None)), Err("g.vertexNames は配列で指定してください".to_string()));
    assert_eq!(check_vertex_names("g.vertexNames", Some(Some(vec![Some("A".into()), Some("B".into())]))), Ok(()));
    assert_eq!(check_vertex_names("g.vertexNames", Some(Some(vec![Some("A".into()), None]))), Err("g.vertexNames が不正です".to_string()));
    assert_eq!(check_vertex_names("g", Some(Some(vec![Some("x".repeat(31))]))), Err("g が不正です".to_string()));
    assert_eq!(check_vertex_names("g", Some(Some(vec![Some("x".into()); 101]))), Err("g が不正です".to_string()));
    assert_eq!(check_graph_header(Some(1), Some("MathGraph PDF Studio")), Ok(()));
    assert_eq!(check_graph_header(Some(2), Some("MathGraph PDF Studio")), Err("未対応のgraph.json versionです".to_string()));
    assert_eq!(check_graph_header(Some(1), None), Err("graph.json のappNameが不正です".to_string()));
}

#[test]
fn the_sample_bank_gives_the_bank_data() {
    let bank = kyozai_kobo::sample::sample_bank();
    assert_eq!(bank.subjects, vec!["数学".to_string()]);
    assert_eq!(bank.fields.iter().map(|f| f.1.as_str()).collect::<Vec<_>>(), vec!["数I", "数A"]);
    assert_eq!(bank.units.len(), 5);
    assert_eq!(bank.units[4], (1, "場合の数".to_string(), 1));
    assert_eq!(bank.problems.len(), 6);
    assert_eq!(bank.problems[0].title, "二次関数の頂点");
    assert_eq!(bank.problems[0].tags, vec!["平方完成".to_string(), "頂点".to_string()]);
    assert_eq!(bank.problems[4].difficulty, "発展");
    assert!(bank.problems[5].statement.starts_with("男子4人"));
    assert!(bank.problems.iter().all(|p| p.unit < bank.units.len()));
    assert!(!kyozai_kobo::tree::has_any_data(0));
    assert!(kyozai_kobo::tree::has_any_data(0 + bank.subjects.len() as i64));
}
