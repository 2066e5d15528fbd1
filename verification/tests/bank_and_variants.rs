use std::collections::HashSet;

use kyozai_kobo::bank::{
    attachment_bytes, attachment_for_export, bank_format, bank_units_query, check_v2_header, count_created_node,
    empty_import_result, export_scope, group_units, imported_node_name, imported_texts, new_stored_name, node_export,
    rename_in, renamed_variants, selected_problem_ids, selection_of, total_v1_nodes, BankAttachment, BankProblem,
    BankUnit, ExportScope,
};
use kyozai_kobo::models::{
    ExplanationSection, PatternSnapshot, ProblemSolutionVariant, SolutionBlock, SolutionPlan, SolutionStrategy,
    SolutionVerification, VerificationIssue,
};
use kyozai_kobo::pattern_card::{pattern_card_latex, render_pattern_card};
use kyozai_kobo::templates::{get_template, validate_templates, TemplateAsset, TemplateFull};
use kyozai_kobo::variants::normalize_solution_variants;

#[test]
fn attachments_travel_as_standard_base64() {
    let a = attachment_for_export("図.png".into(), "img1.png".into(), Some(b"hello".to_vec()));
    assert_eq!(a.data_base64, "aGVsbG8=");
    assert_eq!(attachment_bytes(&a), Some(b"hello".to_vec()));
    let unread = attachment_for_export("図.png".into(), "img1.png".into(), None);
    assert_eq!(unread.data_base64, "");
    assert_eq!(attachment_bytes(&unread), None);
    let broken = BankAttachment { data_base64: "@@@".into(), ..Default::default() };
    assert_eq!(attachment_bytes(&broken), None);
}

#[test]
fn restored_attachments_get_new_names_and_the_texts_follow() {
    assert_eq!(new_stored_name("1a2b3c4d", Some("jpg".into())), "img1a2b3c4d.jpg");
    assert_eq!(new_stored_name("1a2b3c4d", None), "img1a2b3c4d.png");
    let renames = vec![("old.png".to_string(), "new.png".to_string()), (String::new(), "ignored.png".to_string())];
    assert_eq!(rename_in("\\includegraphics{old.png} old.png", &renames), "\\includegraphics{new.png} new.png");
    let p = BankProblem {
        statement_latex: "図 old.png".into(),
        statement_latex_two_column: "  ".into(),
        answer_latex: "old.png".into(),
        explanation_latex: "なし".into(),
        ..Default::default()
    };
    let t = imported_texts(&p, &renames);
    assert_eq!(t.statement, "図 new.png");
    assert_eq!(t.statement_two_column, "図 new.png");
    assert_eq!(t.answer, "new.png");
    assert_eq!(t.explanation, "なし");
}

#[test]
fn solution_variants_follow_renamed_attachments() {
    let v = ProblemSolutionVariant {
        id: "main".into(),
        solution: "see old.png".into(),
        explanation: Some("old.png again".into()),
        solution_blocks: vec![SolutionBlock { content: "old.png".into() }],
        explanation_sections: vec![ExplanationSection { content: "x old.png".into() }],
        ..Default::default()
    };
    let out = renamed_variants(vec![v], &vec![("old.png".to_string(), "img9.png".to_string())]);
    assert_eq!(out.len(), 1);
    assert_eq!(out[0].id, "main");
    assert_eq!(out[0].solution, "see img9.png");
    assert_eq!(out[0].explanation.as_deref(), Some("img9.png again"));
    assert_eq!(out[0].solution_blocks[0].content, "img9.png");
    assert_eq!(out[0].explanation_sections[0].content, "x img9.png");
}

#[test]
fn bank_files_name_their_format() {
    assert_eq!(bank_format(1), Ok(1));
    assert_eq!(bank_format(2), Ok(2));
    assert_eq!(bank_format(0), Err("対応していないバージョンのファイルです".to_string()));
    assert_eq!(check_v2_header(2, 2), Ok(()));
    assert_eq!(check_v2_header(2, 1), Err("対応していない問題バンク形式です".to_string()));
    assert_eq!(imported_node_name("  数III "), Ok("数III".to_string()));
    assert_eq!(imported_node_name("   "), Err("階層名が空のデータは取り込めません".to_string()));
}

#[test]
fn import_counts_follow_the_depth_of_created_folders() {
    let r = count_created_node(empty_import_result(), 0);
    let r = count_created_node(r, 1);
    let r = count_created_node(r, 2);
    let r = count_created_node(r, 5);
    assert_eq!((r.nodes_created, r.subjects_created, r.fields_created, r.units_created), (4, 1, 1, 1));
    let mut v1 = empty_import_result();
    v1.subjects_created = 1;
    v1.fields_created = 2;
    v1.units_created = 3;
    assert_eq!(total_v1_nodes(v1).nodes_created, 6);
}

#[test]
fn export_scopes_need_an_id_where_they_name_one_folder() {
    assert_eq!(export_scope("all", None), Ok(ExportScope::Roots { prune: false }));
    assert_eq!(export_scope("problems", None), Ok(ExportScope::Roots { prune: true }));
    assert_eq!(export_scope("node", Some(3)), Ok(ExportScope::Node(3)));
    assert_eq!(export_scope("unit", Some(4)), Ok(ExportScope::Legacy { kind: "unit".into(), id: 4 }));
    assert_eq!(export_scope("node", None), Err("IDが必要です".to_string()));
    assert_eq!(export_scope("planet", None), Err("不明な範囲: planet".to_string()));
}

#[test]
fn exports_take_only_the_selected_problems_and_may_drop_empty_folders() {
    assert_eq!(selection_of(Some(vec![])), None);
    assert_eq!(selection_of(Some(vec![2])), Some(vec![2]));
    assert_eq!(selected_problem_ids(&vec![1, 2, 3, 4], &Some(vec![4, 2])), vec![2, 4]);
    assert_eq!(selected_problem_ids(&vec![1, 2], &None), vec![1, 2]);
    assert!(node_export("空".into(), vec![], vec![], true).is_none());
    let kept = node_export("空".into(), vec![], vec![], false).unwrap();
    assert_eq!(kept.name, "空");
}

fn unit(name: &str, problems: usize) -> BankUnit {
    BankUnit { name: name.into(), problems: (0..problems).map(|_| BankProblem::default()).collect() }
}

#[test]
fn first_format_exports_group_units_by_subject_and_field() {
    let rows = vec![
        ("数学".to_string(), "数I".to_string(), unit("二次関数", 1)),
        ("数学".to_string(), "数A".to_string(), unit("確率", 0)),
        ("物理".to_string(), "力学".to_string(), unit("運動", 2)),
        ("数学".to_string(), "数I".to_string(), unit("判別式", 1)),
    ];
    let all = group_units(rows.clone(), false);
    assert_eq!(all.len(), 2);
    assert_eq!(all[0].name, "数学");
    assert_eq!(all[0].fields.len(), 2);
    assert_eq!(all[0].fields[0].name, "数I");
    let names: Vec<&str> = all[0].fields[0].units.iter().map(|u| u.name.as_str()).collect();
    assert_eq!(names, vec!["二次関数", "判別式"]);
    assert_eq!(all[1].fields[0].units[0].name, "運動");
    let pruned = group_units(rows, true);
    assert_eq!(pruned[0].fields.len(), 1);
}

#[test]
fn first_format_exports_list_units_by_scope() {
    let (sql, p) = bank_units_query("field", Some(3)).unwrap();
    assert!(sql.contains(" WHERE f.id=?1 ORDER BY s.sort_order"));
    assert_eq!(p, Some(3));
    let (all, none) = bank_units_query("all", None).unwrap();
    assert!(!all.contains("WHERE"));
    assert_eq!(none, None);
    assert_eq!(bank_units_query("unit", None), Err("IDが必要です".to_string()));
    assert_eq!(bank_units_query("node", Some(1)), Err("不明な範囲: node".to_string()));
}

fn variant(id: &str, role: &str) -> ProblemSolutionVariant {
    ProblemSolutionVariant {
        id: id.into(),
        role: role.into(),
        strategy: SolutionStrategy { title: "平均値の定理".into(), summary: "完答する".into(), ..Default::default() },
        ..Default::default()
    }
}

#[test]
fn saved_variants_get_distinct_ids_and_one_main_solution() {
    let vs = vec![variant(" a ", "alternative"), variant("a", "main"), variant("", "main")];
    let out = normalize_solution_variants(vs, &HashSet::new()).unwrap();
    let ids: Vec<&str> = out.iter().map(|v| v.id.as_str()).collect();
    assert_eq!(ids, vec!["a", "variant-2", "variant-3"]);
    let roles: Vec<&str> = out.iter().map(|v| v.role.as_str()).collect();
    assert_eq!(roles, vec!["alternative", "main", "alternative"]);
    assert_eq!(out[0].strategy.id, "strategy-1");
}

#[test]
fn without_a_main_solution_the_first_variant_is_main() {
    let out = normalize_solution_variants(vec![variant("x", "alternative"), variant("y", "other")], &HashSet::new()).unwrap();
    assert_eq!(out[0].role, "main");
    assert_eq!(out[1].role, "alternative");
}

#[test]
fn generated_variant_ids_avoid_taken_ones() {
    let out = normalize_solution_variants(vec![variant("variant-2", "main"), variant("variant-2", "main")], &HashSet::new()).unwrap();
    assert_eq!(out[1].id, "variant-2x");
}

#[test]
fn variant_strategies_are_clipped_and_checked() {
    let mut v = variant("m", "main");
    v.strategy.difficulty = Some("extreme".into());
    v.strategy.answer_length = Some("short".into());
    v.strategy.concepts = (0..20).map(|i| if i == 0 { "  ".to_string() } else { format!(" c{} ", i) }).collect();
    v.strategy.title = "t".repeat(130);
    v.plan = Some(SolutionPlan { strategy_id: "stale".into(), outline: (0..60).map(|i| i.to_string()).collect() });
    v.solution_blocks = (0..120).map(|_| SolutionBlock::default()).collect();
    let out = normalize_solution_variants(vec![v], &HashSet::new()).unwrap();
    let s = &out[0].strategy;
    assert_eq!(s.difficulty, None);
    assert_eq!(s.answer_length.as_deref(), Some("short"));
    assert_eq!(s.concepts.len(), 12);
    assert_eq!(s.concepts[0], "c1");
    assert_eq!(s.title.chars().count(), 120);
    let plan = out[0].plan.as_ref().unwrap();
    assert_eq!(plan.strategy_id, "strategy-1");
    assert_eq!(plan.outline.len(), 50);
    assert_eq!(out[0].solution_blocks.len(), 100);
}

#[test]
fn variants_are_refused_when_too_many_unnamed_too_long_or_badly_checked() {
    let seven: Vec<_> = (0..7).map(|i| variant(&i.to_string(), "main")).collect();
    assert_eq!(normalize_solution_variants(seven, &HashSet::new()).unwrap_err(), "解法は最大6件まで保存できます");
    let mut unnamed = variant("a", "main");
    unnamed.strategy.summary = "  ".into();
    assert_eq!(normalize_solution_variants(vec![unnamed], &HashSet::new()).unwrap_err(), "解法名と概要を入力してください");
    let mut long = variant("a", "main");
    long.explanation = Some("x".repeat(200_001));
    assert_eq!(normalize_solution_variants(vec![long], &HashSet::new()).unwrap_err(), "解答または解説が長すぎます");
    let mut checked = variant("a", "main");
    checked.verification = Some(SolutionVerification {
        issues: vec![VerificationIssue { severity: "info".into(), message: "ok".into() }],
    });
    assert_eq!(normalize_solution_variants(vec![checked], &HashSet::new()).unwrap_err(), "解答検証結果の形式が不正です");
    let mut fine = variant("a", "main");
    fine.verification = Some(SolutionVerification {
        issues: vec![VerificationIssue { severity: "warning".into(), message: "符号".into() }],
    });
    assert!(normalize_solution_variants(vec![fine], &HashSet::new()).is_ok());
}

#[test]
fn a_template_is_shown_with_its_files_and_warnings() {
    let stored = TemplateFull {
        id: 3,
        name: "標準".into(),
        problem_template: "no markers".into(),
        answer_template: "no markers".into(),
        ..Default::default()
    };
    let asset = |id: i64, name: &str| TemplateAsset { id, template_id: 3, file_name: name.into(), stored_name: format!("{id}.png") };
    let assets = vec![asset(9, "c.png"), asset(1, "a.png"), asset(4, "b.png")];
    let shown = get_template(Ok(stored.clone()), assets).unwrap();
    assert_eq!(shown.id, 3);
    assert_eq!(shown.name, "標準");
    assert_eq!(shown.assets.iter().map(|a| a.id).collect::<Vec<_>>(), vec![1, 4, 9]);
    assert_eq!(shown.assets[0].file_name, "a.png");
    assert_eq!(shown.warnings, validate_templates("", "no markers", "no markers"));
    assert!(!shown.warnings.is_empty());
    let missing = get_template(Err("Query returned no rows".into()), vec![asset(1, "a.png")]);
    assert_eq!(missing.err(), Some("Query returned no rows".to_string()));
}

#[test]
fn the_card_of_a_stored_pattern_is_its_rendered_card() {
    let s = PatternSnapshot { title: "平均値の定理の利用".into(), ..Default::default() };
    assert_eq!(pattern_card_latex(&s), render_pattern_card(&s));
    assert!(pattern_card_latex(&s).contains("平均値の定理の利用"));
}
