use kyozai_kobo::models::{
    PatternFacets, PatternFull, PatternParentHint, PatternProposal, PatternProposalStrategy, PatternStrategy,
};
use kyozai_kobo::patterns::{
    append_unique_text, apply_pattern_edit, check_proposal_application, check_source_problem,
    classify_pattern_proposal, classify_pattern_proposals, clean_values, merge_proposal_into_pattern,
    normalized_type, pattern_edit_proposal, proposal_key, proposal_search_terms, proposal_similarity,
    solution_subject_from_root_name, source_kind_for_proposal, source_note_for_proposal, title_scan_matches,
    validate_proposal,
};

fn proposal(title: &str) -> PatternProposal {
    PatternProposal {
        title: title.into(),
        pattern_type: "strategy".into(),
        source_type: "manual".into(),
        specificity_level: 2,
        recommended_storage: "new_pattern".into(),
        strategies: vec![PatternProposalStrategy { title: "平方完成する".into(), ..Default::default() }],
        ..Default::default()
    }
}

fn stored(id: i64, title: &str) -> PatternFull {
    PatternFull {
        id,
        title: title.into(),
        strategies: vec![PatternStrategy { id: 10, title: "平方完成する".into(), ..Default::default() }],
        ..Default::default()
    }
}

#[test]
fn keys_keep_lower_cased_letters_and_digits() {
    assert_eq!(proposal_key("Ab c1！"), "abc1");
    assert_eq!(proposal_key("二次関数の最大値"), "二次関数の最大値");
    assert_eq!(proposal_key(" -- "), "");
}

#[test]
fn values_are_trimmed_and_deduplicated_case_insensitively() {
    let values = vec!["a".to_string(), " A ".to_string(), "".to_string(), "b".to_string()];
    assert_eq!(clean_values(&values), vec!["a".to_string(), "b".to_string()]);
}

#[test]
fn unique_text_appends_only_new_lines() {
    let adds = vec!["Y".to_string(), "z".to_string(), " ".to_string()];
    assert_eq!(append_unique_text("x\n\n y ", &adds), "x\ny\nz");
    assert_eq!(append_unique_text("", &vec!["a".to_string()]), "a");
}

#[test]
fn an_identical_title_scores_as_a_duplicate() {
    let p = proposal("二次関数の最大値");
    let q = stored(5, "二次関数の最大値");
    let (score, reasons) = proposal_similarity(&p, &q);
    assert_eq!(score, 100 + 7 + 10);
    assert_eq!(
        reasons,
        vec![
            "タイトルが一致".to_string(),
            "候補手法1件が一致".to_string(),
            "タイトルの語がほぼ一致".to_string()
        ]
    );
    let mut p = p;
    classify_pattern_proposal(&mut p, &vec![stored(4, "全く別の話題"), q]);
    assert_eq!(p.matched_pattern_id, Some(5));
    assert_eq!(p.matched_pattern_title.as_deref(), Some("二次関数の最大値"));
    assert_eq!(p.action_recommendation, "duplicate");
    assert_eq!(p.similarity_reason, "タイトルが一致 / 候補手法1件が一致 / タイトルの語がほぼ一致");
}

#[test]
fn without_a_close_pattern_a_new_one_is_recommended() {
    let mut p = proposal("ベクトルの内積");
    p.strategies[0].title = "成分で計算する".into();
    classify_pattern_proposal(&mut p, &vec![stored(4, "確率の漸化式")]);
    assert_eq!(p.matched_pattern_id, None);
    assert_eq!(p.similarity_reason, "近い既存定石は見つかりませんでした");
    assert_eq!(p.action_recommendation, "create_new");
    let mut ignored = PatternProposal { recommended_storage: "ignore".into(), ..proposal("x") };
    classify_pattern_proposal(&mut ignored, &vec![]);
    assert_eq!(ignored.action_recommendation, "ignore");
}

#[test]
fn a_new_strategy_for_a_similar_pattern_is_added_as_a_candidate() {
    let mut p = proposal("二次関数の最大値を求める");
    p.recommended_storage = "candidate_strategy".into();
    p.strategies[0].title = "グラフを描く".into();
    let mut list = vec![p];
    classify_pattern_proposals(&mut list, &vec![vec![stored(9, "二次関数の最大値")]]);
    assert_eq!(list[0].matched_pattern_id, Some(9));
    assert_eq!(list[0].action_recommendation, "add_candidate_to_existing");
}

#[test]
fn proposals_are_checked_field_by_field() {
    assert_eq!(validate_proposal(&proposal("t"), true), Ok(()));
    assert_eq!(
        validate_proposal(&proposal(" "), true),
        Err("定石候補のタイトルを入力してください".to_string())
    );
    assert_eq!(
        validate_proposal(&proposal(&"x".repeat(61)), true),
        Err("定石候補のタイトルが長すぎます".to_string())
    );
    assert_eq!(
        validate_proposal(&PatternProposal { strategies: vec![], ..proposal("t") }, true),
        Err("候補手法は1〜6件で指定してください".to_string())
    );
    assert_eq!(
        validate_proposal(&proposal("t"), false),
        Err("定石候補の再利用可能性は0〜1で指定してください".to_string())
    );
    assert_eq!(
        validate_proposal(&PatternProposal { specificity_level: 5, ..proposal("t") }, true),
        Err("定石候補の抽象度は1〜4で指定してください".to_string())
    );
    let hint = PatternParentHint { title: " ".into(), reason: String::new() };
    assert_eq!(
        validate_proposal(&PatternProposal { possible_parent_pattern: Some(hint), ..proposal("t") }, true),
        Err("上位定石の候補が不正です".to_string())
    );
}

#[test]
fn provenance_is_one_line() {
    assert_eq!(source_note_for_proposal(12, "ai_inferred", ""), "Problem #12から一般化（AI推定）");
    assert_eq!(source_note_for_proposal(0, "ai_chat", " chat-1 "), "AI Chatで作成（chat-1）");
    assert_eq!(source_note_for_proposal(0, "other", ""), "手動で作成");
    assert_eq!(source_kind_for_proposal("explanation_used"), "problem_solution");
    assert_eq!(source_kind_for_proposal("image_import"), "image_import");
    assert_eq!(solution_subject_from_root_name("高校物理"), "physics");
    assert_eq!(solution_subject_from_root_name("日本史・歴史"), "social_studies");
    assert_eq!(solution_subject_from_root_name("数学IA"), "mathematics");
    assert_eq!(normalized_type("  "), "strategy");
}

#[test]
fn application_requests_are_checked() {
    assert_eq!(
        check_proposal_application(-1, None, "manual", "", "create_new"),
        Err("抽出元Problemが不正です".to_string())
    );
    assert_eq!(
        check_proposal_application(0, Some("used"), "manual", "", "create_new"),
        Err("抽出元Problemがない候補は、Problemと関連付けできません".to_string())
    );
    assert_eq!(
        check_proposal_application(0, None, "ai_inferred", "", "create_new"),
        Err("Problem由来の抽出根拠には抽出元Problemが必要です".to_string())
    );
    assert_eq!(
        check_proposal_application(3, Some("maybe"), "manual", "", "create_new"),
        Err("Problemとの関連種別が不正です".to_string())
    );
    assert_eq!(
        check_proposal_application(3, None, "manual", "", "replace"),
        Err("定石候補の反映方法が不正です".to_string())
    );
    assert_eq!(check_proposal_application(3, Some("used"), "solution_used", "r", "link_existing"), Ok(()));
    assert!(check_source_problem("solution_used", " ", "E").is_err());
    assert!(check_source_problem("explanation_used", "A", "E").is_ok());
}

#[test]
fn merging_adds_new_strategies_cautions_and_provenance() {
    let current = PatternFull {
        cautions: "符号に注意".into(),
        source_note: "手動で作成".into(),
        tags: vec!["二次関数".into()],
        ..stored(1, "二次関数の最大値")
    };
    let mut p = proposal("二次関数の最大値");
    p.strategies.push(PatternProposalStrategy { title: "グラフを描く".into(), ..Default::default() });
    p.cautions = vec!["符号に注意".into(), "定義域を確認".into()];
    p.tags = vec!["最大値".into()];
    let merged = merge_proposal_into_pattern(&current, &p, "merge_into_existing", "AI推定");
    assert_eq!(merged.strategies.len(), 2);
    assert_eq!(merged.strategies[0].id, Some(10));
    assert_eq!(merged.strategies[1].title, "グラフを描く");
    assert_eq!(merged.strategies[1].sort_order, 2);
    assert_eq!(merged.cautions, "符号に注意\n定義域を確認");
    assert_eq!(merged.examples, "二次関数の最大値");
    assert_eq!(merged.source_note, "手動で作成\nAI推定");
    assert_eq!(merged.tags, Some(vec!["二次関数".to_string(), "最大値".to_string()]));
    let link = merge_proposal_into_pattern(&current, &p, "link_existing", "AI推定");
    assert_eq!(link.strategies.len(), 1);
    assert_eq!(link.cautions, "符号に注意");
    assert!(link.tags.is_none());
}

#[test]
fn a_stored_pattern_round_trips_through_an_edit_proposal() {
    let pattern = PatternFull {
        id: 7,
        title: "T".into(),
        pattern_type: "technique".into(),
        cautions: "a\n\n b ".into(),
        examples: "ex".into(),
        source_note: "src".into(),
        facets: PatternFacets { domains: vec!["d".into()], ..Default::default() },
        ..stored(7, "T")
    };
    let p = pattern_edit_proposal(&pattern);
    assert_eq!(p.proposal_id, "pattern-7");
    assert_eq!(p.cautions, vec!["a".to_string(), "b".to_string()]);
    assert_eq!(p.strategies[0].sort_order, 1);
    assert_eq!(p.source_type, "manual");
    assert_eq!(p.action_recommendation, "create_new");
    let edited = PatternProposal { specificity_level: 1, recommended_storage: "new_pattern".into(), ..p };
    let update = apply_pattern_edit(7, Some(3), &edited, true, &pattern).unwrap();
    assert_eq!(update.id, 7);
    assert_eq!(update.expected_version, Some(3));
    assert_eq!(update.cautions, "a\nb");
    assert_eq!(update.examples, "ex");
    assert_eq!(update.source_note, "src");
    assert_eq!(update.facets.domains, vec!["d".to_string()]);
    assert_eq!(update.strategies[0].title, "平方完成する");
    assert!(apply_pattern_edit(7, None, &p_without_title(&edited), true, &pattern).is_err());
}

fn p_without_title(p: &PatternProposal) -> PatternProposal {
    PatternProposal { title: String::new(), ..p.clone() }
}

#[test]
fn search_terms_are_cleaned_and_the_title_scan_uses_character_pairs() {
    let mut p = proposal("二次関数の最大値");
    p.search_concepts = vec!["最大値".into(), "最大値".into()];
    p.summary = "平方完成".into();
    let terms = proposal_search_terms(&p);
    assert_eq!(
        terms,
        vec!["最大値".to_string(), "二次関数の最大値".to_string(), "平方完成".to_string(), "平方完成する".to_string()]
    );
    assert!(title_scan_matches(&p, "二次関数の最小値"));
    assert!(!title_scan_matches(&p, "確率"));
}
