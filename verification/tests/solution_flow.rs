use std::collections::HashSet;

use kyozai_kobo::flow_edit::{
    align_flow_headings_with_answer, hoist_branching_pattern_before_method_headings,
    hydrate_ai_flow_blocks, promote_flow_part_headings,
};
use kyozai_kobo::flow_headings::{
    extract_solution_method_headings, extract_solution_part_headings,
};
use kyozai_kobo::flow_normalize::{
    normalize_generated_flow_for_students, normalize_saved_flow_blocks,
};
use kyozai_kobo::flow_render::{display_formula, ensure_pattern_usage_explanations, render_flow_blocks};
use kyozai_kobo::flow_teaching::{render_solution_flow_latex, render_teaching_flow_latex};
use kyozai_kobo::models::{
    PatternFacets, PatternSnapshot, PatternStrategyInput, ProblemSolutionVariant,
    SolutionFlowBlock, SolutionStrategy,
};

fn snapshot(version: i64) -> PatternSnapshot {
    PatternSnapshot {
        version,
        uuid: "pattern-uuid".into(),
        title: "関数値の差 \\(f(b)-f(a)\\) の扱い".into(),
        summary: String::new(),
        pattern_type: "strategy".into(),
        situation: String::new(),
        principle: String::new(),
        cautions: String::new(),
        examples: String::new(),
        source_note: String::new(),
        tags: vec![],
        facets: PatternFacets::default(),
        strategies: vec![
            PatternStrategyInput {
                id: Some(101),
                title: "平均値の定理の利用".into(),
                sort_order: 1,
                ..Default::default()
            },
            PatternStrategyInput {
                id: Some(102),
                title: "定積分表示の利用".into(),
                sort_order: 2,
                ..Default::default()
            },
        ],
    }
}

fn pattern_block(id: &str, used: Vec<i64>, version: i64) -> SolutionFlowBlock {
    SolutionFlowBlock {
        id: id.into(),
        block_type: "pattern".into(),
        pattern_id: Some(42),
        pattern_version: Some(version),
        snapshot: Some(snapshot(version)),
        used_strategy_ids: used,
        ..Default::default()
    }
}

fn variant(role: &str, flow_blocks: Vec<SolutionFlowBlock>) -> ProblemSolutionVariant {
    ProblemSolutionVariant {
        id: format!("variant-{role}"),
        role: role.into(),
        strategy: SolutionStrategy {
            id: format!("strategy-{role}"),
            title: if role == "main" {
                "平均値の定理"
            } else {
                "定積分"
            }
            .into(),
            summary: "完答する".into(),
            ..Default::default()
        },
        flow_blocks,
        ..Default::default()
    }
}

#[test]
fn common_pattern_is_full_and_not_repeated_in_variants() {
    let common = vec![pattern_block("common-pattern", vec![101, 102], 3)];
    let variants = vec![
        variant("main", vec![pattern_block("duplicate", vec![101], 3)]),
        variant(
            "alternative",
            vec![SolutionFlowBlock {
                id: "alt-text".into(),
                block_type: "text".into(),
                content: "上の定石の②を用いる。".into(),
                ..Default::default()
            }],
        ),
    ];
    let latex = render_solution_flow_latex(common, variants).unwrap();
    assert_eq!(latex.matches("\\begin{tcolorbox}").count(), 1);
    assert!(latex.contains("平均値の定理の利用"));
    assert!(latex.contains("定積分表示の利用"));
    assert!(!latex.contains("今回使用"));
}

#[test]
fn ai_pattern_block_gets_a_usage_sentence_after_the_card() {
    let blocks = ensure_pattern_usage_explanations(vec![
        pattern_block("pattern", vec![101], 3),
        SolutionFlowBlock {
            id: "formula".into(),
            block_type: "formula".into(),
            latex: "f(b)-f(a)".into(),
            ..Default::default()
        },
    ]);
    assert_eq!(blocks.len(), 3);
    assert_eq!(blocks[1].block_type, "text");
    assert_eq!(blocks[1].content, "ここでは、平均値の定理を用いる。");
}

#[test]
fn ai_usage_reason_immediately_after_pattern_is_preserved() {
    let reason = SolutionFlowBlock {
        id: "reason".into(),
        block_type: "text".into(),
        content: "ここでは、関数値の差であるから平均値の定理を用いる。".into(),
        ..Default::default()
    };
    let blocks = ensure_pattern_usage_explanations(vec![
        pattern_block("pattern", vec![101], 3),
        reason.clone(),
    ]);
    assert_eq!(blocks.len(), 2);
    assert_eq!(blocks[1].content, reason.content);
}

#[test]
fn shared_candidate_pattern_is_placed_before_method_branches() {
    let mut blocks = vec![
        SolutionFlowBlock {
            id: "method-1".into(),
            block_type: "heading".into(),
            text: "(1) 解法1（成分表示を用いる方法）".into(),
            ..Default::default()
        },
        pattern_block("complex-pattern", vec![101, 102], 3),
        SolutionFlowBlock {
            id: "choice-1".into(),
            block_type: "text".into(),
            content: "ここでは、成分表示を用いる。".into(),
            ..Default::default()
        },
        SolutionFlowBlock {
            id: "method-2".into(),
            block_type: "heading".into(),
            text: "解法2（極形式を用いる方法）".into(),
            ..Default::default()
        },
        SolutionFlowBlock {
            id: "choice-2".into(),
            block_type: "text".into(),
            content: "ここでは、極形式を用いる。".into(),
            ..Default::default()
        },
    ];

    hoist_branching_pattern_before_method_headings(&mut blocks);
    let blocks = ensure_pattern_usage_explanations(blocks);

    assert_eq!(blocks[0].block_type, "pattern");
    assert_eq!(blocks[1].block_type, "text");
    assert!(blocks[1].content.contains("それぞれを用いる解法"));
    assert_eq!(blocks[2].text, "(1) 解法1（成分表示を用いる方法）");
    assert_eq!(blocks[3].content, "ここでは、成分表示を用いる。");
    assert_eq!(blocks[4].text, "解法2（極形式を用いる方法）");
    assert_eq!(blocks[5].content, "ここでは、極形式を用いる。");
}

#[test]
fn embedded_part_number_is_promoted_to_a_bold_flow_heading() {
    let answer = "(1) 解法1（成分表示を用いる方法）\n本文\n\n(2)\n本文";
    let headings = extract_solution_part_headings(answer);
    assert_eq!(headings, vec!["(2)"]);
    let mut blocks = vec![SolutionFlowBlock {
        id: "part-2-text".into(),
        block_type: "text".into(),
        content: "(2)では、(1)を利用できる形へ直す。".into(),
        ..Default::default()
    }];

    promote_flow_part_headings(&mut blocks, &headings).unwrap();

    assert_eq!(blocks.len(), 2);
    assert_eq!(blocks[0].block_type, "heading");
    assert_eq!(blocks[0].text, "(2)");
    assert_eq!(blocks[1].content, "(1)を利用できる形へ直す。");
    let latex = render_flow_blocks(&blocks);
    assert!(latex.contains("\\noindent\\textbf{(2)}"));
}

#[test]
fn ai_flow_rephrases_nonstandard_short_terms() {
    let mut block = SolutionFlowBlock {
        id: "wording".into(),
        block_type: "text".into(),
        content: "交差項を整理し、下界を求める。".into(),
        ..Default::default()
    };
    normalize_generated_flow_for_students(&mut block).unwrap();
    assert_eq!(
        block.content,
        "積を含む項を整理し、これより小さくならない値を求める。"
    );
}

#[test]
fn ai_flow_removes_answer_production_language() {
    let mut block = SolutionFlowBlock {
        id: "wording".into(),
        block_type: "text".into(),
        content: "分数指数を消すため、既存答案の置換を用いる。計算すれば既存答案の結論に至る。"
            .into(),
        ..Default::default()
    };
    normalize_generated_flow_for_students(&mut block).unwrap();
    assert_eq!(
        block.content,
        "分数指数を消すため、この置換を用いる。計算すれば求める結論が得られる。"
    );
    assert!(!block.content.contains("答案"));
}

#[test]
fn log_difference_branches_into_mean_value_and_integral_solutions() {
    let common = vec![
        SolutionFlowBlock {
            id: "recognize-difference".into(),
            block_type: "text".into(),
            content: r"\(\log(b/a)=\log b-\log a\) は関数値の差になっている。".into(),
            ..Default::default()
        },
        pattern_block("difference-pattern", vec![101, 102], 4),
    ];
    let mut main = variant(
        "main",
        vec![
            SolutionFlowBlock {
                id: "mvt-choice".into(),
                block_type: "text".into(),
                content: "上の定石の①（平均値の定理）を用いる。".into(),
                ..Default::default()
            },
            SolutionFlowBlock {
                id: "mvt-formula".into(),
                block_type: "formula".into(),
                latex: r"\log b-\log a=\dfrac{b-a}{c}\quad(a<c<b)".into(),
                ..Default::default()
            },
        ],
    );
    main.solution =
        r"\(a<c<b\) を満たす \(c\) が存在し、\(\log b-\log a=(b-a)/c\) である。".into();
    let mut alternative = variant(
        "alternative",
        vec![
            SolutionFlowBlock {
                id: "integral-choice".into(),
                block_type: "text".into(),
                content: "上の定石の②（定積分表示）を用いる。".into(),
                ..Default::default()
            },
            SolutionFlowBlock {
                id: "integral-formula".into(),
                block_type: "formula".into(),
                latex: r"\log b-\log a=\int_a^b\dfrac{1}{x}\,dx".into(),
                ..Default::default()
            },
        ],
    );
    alternative.solution = r"\(a<x<b\) では \(1/b<1/x<1/a\) だから積分する。".into();

    let latex = render_solution_flow_latex(common, vec![main, alternative]).unwrap();
    assert_eq!(latex.matches("\\begin{tcolorbox}").count(), 1);
    assert!(latex.contains("平均値の定理の利用"));
    assert!(latex.contains("定積分表示の利用"));
    assert!(latex.contains("【解法1】"));
    assert!(latex.contains("【別解1】"));
    assert!(!latex.contains("【解法1："));
    assert!(!latex.contains("【別解1："));
    assert!(latex.contains(r"\int_a^b"));
}

#[test]
fn flow_without_patterns_is_valid() {
    let flow = vec![
        SolutionFlowBlock {
            id: "idea".into(),
            block_type: "text".into(),
            content: "対称性から置換後の形を比較する。".into(),
            ..Default::default()
        },
        SolutionFlowBlock {
            id: "calculation".into(),
            block_type: "formula".into(),
            latex: "x+y=1".into(),
            ..Default::default()
        },
    ];
    let latex = render_solution_flow_latex(vec![], vec![variant("main", flow)]).unwrap();
    assert!(!latex.contains("tcolorbox"));
    assert!(latex.contains("対称性"));
    assert!(latex.contains("x+y=1"));
}

#[test]
fn formula_blocks_put_inner_math_environments_in_math_mode() {
    let aligned = display_formula(r"\begin{aligned}x&=1\\y&=2\end{aligned}");
    assert!(aligned.starts_with("\\[\n\\begin{aligned}"));
    assert!(aligned.ends_with("\\end{aligned}\n\\]\n"));

    let cases = display_formula(r"\begin{cases}x=1\\y=2\end{cases}");
    assert!(cases.starts_with("\\[\n\\begin{cases}"));

    let align = display_formula(r"\begin{align*}x&=1\end{align*}");
    assert!(align.starts_with("\\begin{align*}"));
    assert!(!align.starts_with("\\["));
}

#[test]
fn formula_blocks_do_not_nest_existing_inline_math_delimiters() {
    assert_eq!(display_formula(r"\(x=1\)"), "\\[\nx=1\n\\]\n");
    assert_eq!(display_formula("$x=1$"), "\\[\nx=1\n\\]\n");
}

#[test]
fn flow_spacing_is_compact_and_does_not_repeat_smallskip_between_blocks() {
    let flow = render_flow_blocks(&[
        SolutionFlowBlock {
            id: "text".into(),
            block_type: "text".into(),
            content: "着眼点を述べる。".into(),
            ..Default::default()
        },
        SolutionFlowBlock {
            id: "heading".into(),
            block_type: "heading".into(),
            text: "(1)".into(),
            ..Default::default()
        },
    ]);
    assert!(flow.contains("着眼点を述べる。\n\\par\n\\par\\smallskip"));
    assert!(!flow.contains("\\par\\smallskip\n\\par\\smallskip"));
    assert!(flow.contains("\\setlength{\\abovedisplayskip}{0.4em}"));
    assert!(flow.contains("\\setlength{\\belowdisplayskip}{0.4em}"));
    assert!(flow.contains("\\setlength{\\abovedisplayshortskip}{0.25em}"));
    assert!(flow.contains("\\setlength{\\belowdisplayshortskip}{0.25em}"));
}

#[test]
fn text_connects_to_the_next_formula_without_an_extra_paragraph() {
    let flow = render_flow_blocks(&[
        SolutionFlowBlock {
            id: "reason".into(),
            block_type: "text".into(),
            content: "各成分の符号を調べる。".into(),
            ..Default::default()
        },
        SolutionFlowBlock {
            id: "signs".into(),
            block_type: "formula".into(),
            latex: "x_k\\geqq0".into(),
            ..Default::default()
        },
    ]);
    assert!(flow.contains("各成分の符号を調べる。\n\\[\nx_k\\geqq0"));
    assert!(!flow.contains("各成分の符号を調べる。\n\\par\n\\["));
}

#[test]
fn qquad_condition_lists_are_stacked_for_narrow_columns() {
    let rendered = display_formula(
        r"z_k=r_k(\cos\theta_k+i\sin\theta_k),\qquad r_k=|z_k|>0,\qquad 0\leqq\theta_k\leqq\dfrac{\pi}{2}",
    );
    assert!(rendered.contains("\\begin{gathered}"));
    assert!(rendered.contains("\\\\\nr_k=|z_k|>0"));
    assert!(!rendered.contains(",\\qquad"));
}

#[test]
fn short_two_term_formula_stays_on_one_line() {
    let rendered = display_formula(r"x_k\geqq0,\qquad y_k\geqq0");
    assert!(!rendered.contains("\\begin{gathered}"));
    assert!(rendered.contains(r"x_k\geqq0,\qquad y_k\geqq0"));
}

#[test]
fn saved_flow_rejects_latex_incompatible_control_characters() {
    let flow = vec![SolutionFlowBlock {
        id: "invalid-control".into(),
        block_type: "formula".into(),
        latex: "x=1\0qquad y=2".into(),
        ..Default::default()
    }];
    let error = normalize_saved_flow_blocks(flow, &HashSet::new())
        .err()
        .expect("NULを含むFlowを保存してはいけない");
    assert!(error.contains("制御文字"), "{error}");
}

#[test]
fn legacy_answer_only_has_no_forced_flow() {
    let mut legacy = variant("main", vec![]);
    legacy.solution = "既存答案".into();
    assert_eq!(render_teaching_flow_latex(&[], &[legacy]), "");
}

#[test]
fn legacy_explanation_is_kept_when_structured_flow_is_absent() {
    let mut legacy = variant("main", vec![]);
    legacy.solution = "既存答案".into();
    legacy.explanation = Some("既存解説".into());
    assert_eq!(render_teaching_flow_latex(&[], &[legacy]), "既存解説");
}

#[test]
fn existing_variant_can_gain_flow_without_losing_its_exam_answer() {
    let mut saved = variant(
        "main",
        vec![SolutionFlowBlock {
            id: "viewpoint".into(),
            block_type: "text".into(),
            content: "なぜこの方針を選ぶか。".into(),
            ..Default::default()
        }],
    );
    saved.solution = "保存済み答案".into();
    saved.explanation = Some("旧解説".into());
    let latex = render_teaching_flow_latex(&[], &[saved.clone()]);
    assert!(latex.contains("なぜこの方針"));
    assert!(!latex.contains("旧解説"));
    assert_eq!(saved.solution, "保存済み答案");
}

#[test]
fn main_and_alternative_can_use_different_patterns() {
    let first = pattern_block("first", vec![101], 1);
    let mut second = pattern_block("second", vec![102], 1);
    second.pattern_id = Some(43);
    second.snapshot.as_mut().unwrap().uuid = "second-pattern".into();
    second.snapshot.as_mut().unwrap().title = "別の定石".into();
    let latex = render_solution_flow_latex(
        vec![],
        vec![
            variant("main", vec![first]),
            variant("alternative", vec![second]),
        ],
    )
    .unwrap();
    assert_eq!(latex.matches("\\begin{tcolorbox}").count(), 2);
    assert!(latex.contains("別の定石"));
}

#[test]
fn adjacent_duplicate_patterns_are_removed() {
    let flow = normalize_saved_flow_blocks(
        vec![
            pattern_block("first", vec![101], 1),
            pattern_block("again", vec![102], 1),
        ],
        &HashSet::new(),
    )
    .unwrap();
    assert_eq!(flow.len(), 1);
}

#[test]
fn the_same_pattern_can_be_reused_after_new_mathematical_context() {
    let flow = normalize_saved_flow_blocks(
        vec![
            pattern_block("first", vec![101], 1),
            SolutionFlowBlock {
                id: "first-application".into(),
                block_type: "text".into(),
                content: "ここでは、平均値の定理を用いる。".into(),
                ..Default::default()
            },
            SolutionFlowBlock {
                id: "next-part".into(),
                block_type: "heading".into(),
                text: "(2)".into(),
                ..Default::default()
            },
            pattern_block("again", vec![102], 1),
        ],
        &HashSet::new(),
    )
    .unwrap();
    assert_eq!(flow.len(), 4);
    assert_eq!(
        flow.iter()
            .filter(|block| block.block_type == "pattern")
            .count(),
        2
    );
}

#[test]
fn a_common_pattern_can_be_reused_later_in_a_variant() {
    let common = vec![pattern_block("common", vec![101], 1)];
    let variant = variant(
        "main",
        vec![
            SolutionFlowBlock {
                id: "next-part".into(),
                block_type: "heading".into(),
                text: "(2)".into(),
                ..Default::default()
            },
            pattern_block("again", vec![102], 1),
        ],
    );
    let latex = render_solution_flow_latex(common, vec![variant]).unwrap();
    assert_eq!(latex.matches("\\begin{tcolorbox}").count(), 2);
}

#[test]
fn snapshot_version_is_preserved() {
    let block = pattern_block("old", vec![101], 2);
    let flow = normalize_saved_flow_blocks(vec![block], &HashSet::new()).unwrap();
    assert_eq!(flow[0].pattern_version, Some(2));
    assert_eq!(flow[0].snapshot.as_ref().unwrap().version, 2);
}

#[test]
fn unknown_candidate_is_rejected() {
    let result =
        normalize_saved_flow_blocks(vec![pattern_block("bad", vec![999], 1)], &HashSet::new());
    let error = match result {
        Ok(_) => panic!("存在しないCandidateが受理されました"),
        Err(error) => error,
    };
    assert!(error.contains("存在しないCandidate"));
}

#[test]
fn ai_unknown_pattern_id_is_rejected_before_saving() {
    let result = hydrate_ai_flow_blocks(
        vec![SolutionFlowBlock {
            id: "missing-pattern".into(),
            block_type: "pattern".into(),
            pattern_id: Some(999_999),
            used_strategy_ids: vec![],
            ..Default::default()
        }],
        &vec![],
        &HashSet::new(),
    );
    let error = match result {
        Ok(_) => panic!("存在しないPatternが受理されました"),
        Err(error) => error,
    };
    assert!(error.contains("存在しないpatternId"));
}

// ---- further cases ----

#[test]
fn hydration_attaches_the_snapshot_and_a_usage_sentence() {
    let blocks = hydrate_ai_flow_blocks(
        vec![SolutionFlowBlock {
            id: "p".into(),
            block_type: "pattern".into(),
            pattern_id: Some(42),
            used_strategy_ids: vec![102, 101, 102],
            ..Default::default()
        }],
        &vec![(42, snapshot(7))],
        &HashSet::new(),
    )
    .unwrap();
    assert_eq!(blocks.len(), 2);
    assert_eq!(blocks[0].pattern_version, Some(7));
    assert_eq!(blocks[0].used_strategy_ids, vec![101, 102]);
    assert_eq!(
        blocks[1].content,
        "ここでは、平均値の定理と定積分表示のいずれも使えるため、それぞれを用いる解法を考える。"
    );
    assert_eq!(blocks[1].id, "p-usage");
}

#[test]
fn hydration_refuses_production_words_and_missing_ids() {
    let err = hydrate_ai_flow_blocks(
        vec![SolutionFlowBlock {
            id: "t".into(),
            block_type: "text".into(),
            content: "AIが考えた".into(),
            ..Default::default()
        }],
        &vec![],
        &HashSet::new(),
    )
    .unwrap_err();
    assert_eq!(
        err,
        "考え方の教材本文に制作過程を示す語「AI」を入れず、数学上の判断を直接説明してください"
    );
    let err = hydrate_ai_flow_blocks(
        vec![SolutionFlowBlock {
            block_type: "pattern".into(),
            ..Default::default()
        }],
        &vec![],
        &HashSet::new(),
    )
    .unwrap_err();
    assert_eq!(err, "AIが定石Blockへ有効なpatternIdを指定しませんでした");
    let err = hydrate_ai_flow_blocks(
        vec![SolutionFlowBlock {
            block_type: "pattern".into(),
            pattern_id: Some(5),
            ..Default::default()
        }],
        &vec![],
        &HashSet::new(),
    )
    .unwrap_err();
    assert_eq!(err, "AIが存在しないpatternId 5 を返しました");
}

#[test]
fn normalisation_errors_name_the_problem() {
    let one = |b: SolutionFlowBlock| normalize_saved_flow_blocks(vec![b], &HashSet::new());
    assert_eq!(
        one(SolutionFlowBlock { block_type: "quiz".into(), ..Default::default() }).unwrap_err(),
        "未対応の考え方Blockです: quiz"
    );
    assert_eq!(
        one(SolutionFlowBlock { block_type: "pattern".into(), pattern_id: Some(0), ..Default::default() })
            .unwrap_err(),
        "定石BlockにpatternIdがありません"
    );
    assert_eq!(
        one(SolutionFlowBlock { block_type: "pattern".into(), pattern_id: Some(3), ..Default::default() })
            .unwrap_err(),
        "定石BlockにPatternSnapshotがありません"
    );
    let mut b = pattern_block("x", vec![101], 2);
    b.pattern_version = Some(3);
    assert_eq!(one(b).unwrap_err(), "定石BlockのpatternVersionとsnapshotが一致しません");
    let long = "a".repeat(50_001);
    assert_eq!(
        one(SolutionFlowBlock { block_type: "heading".into(), text: long, ..Default::default() })
            .unwrap_err(),
        "考え方の見出しが長すぎます"
    );
    let many: Vec<SolutionFlowBlock> = (0..121)
        .map(|_| SolutionFlowBlock { block_type: "text".into(), content: "x".into(), ..Default::default() })
        .collect();
    assert_eq!(
        normalize_saved_flow_blocks(many, &HashSet::new()).unwrap_err(),
        "考え方は最大120ブロックです"
    );
}

#[test]
fn normalisation_makes_ids_unique_and_drops_blank_blocks() {
    let text = |id: &str, c: &str| SolutionFlowBlock {
        id: id.into(),
        block_type: "text".into(),
        content: c.into(),
        ..Default::default()
    };
    let flow = normalize_saved_flow_blocks(
        vec![
            text(" a ", "x"),
            text("a", "y"),
            text("", "z"),
            text("b", "   "),
            text("flow-block-5", "w"),
            text("", "v"),
        ],
        &HashSet::new(),
    )
    .unwrap();
    let ids: Vec<&str> = flow.iter().map(|b| b.id.as_str()).collect();
    assert_eq!(ids, vec!["a", "flow-block-2", "flow-block-3", "flow-block-5", "flow-block-6"]);
    let flow = normalize_saved_flow_blocks(
        vec![text("flow-block-2", "x"), text("", "y")],
        &HashSet::new(),
    )
    .unwrap();
    assert_eq!(flow[1].id, "flow-block-2x");
}

#[test]
fn inherited_pattern_is_dropped_until_new_context() {
    let mut inherited = HashSet::new();
    inherited.insert(42);
    let flow = normalize_saved_flow_blocks(vec![pattern_block("p", vec![101], 1)], &inherited).unwrap();
    assert!(flow.is_empty());
}

#[test]
fn method_and_part_headings_are_extracted_as_written() {
    let answer = "\\noindent\\textbf{【解法1】}\\par\n本文\n(1) 別解\n（3）\n(3)\n（3）\n(a)";
    assert_eq!(extract_solution_method_headings(answer), vec!["【解法1】", "(1) 別解"]);
    assert_eq!(extract_solution_part_headings(answer), vec!["（3）", "(3)"]);
}

#[test]
fn method_headings_follow_the_answer() {
    let heading = |t: &str| SolutionFlowBlock {
        block_type: "heading".into(),
        text: t.into(),
        ..Default::default()
    };
    let mut blocks = vec![heading("解法A"), heading("(2)"), heading("別解B")];
    align_flow_headings_with_answer(&mut blocks, &["解法1".to_string(), "別解1".to_string()]).unwrap();
    assert_eq!(blocks[0].text, "解法1");
    assert_eq!(blocks[1].text, "(2)");
    assert_eq!(blocks[2].text, "別解1");
    let err = align_flow_headings_with_answer(&mut blocks, &["解法1".to_string()]).unwrap_err();
    assert_eq!(
        err,
        "考え方の解法見出しが既存答案と一致しません（答案1件、Flow2件）。答案の見出しを省略・要約せず、そのままHeading Blockへ入れてください"
    );
}

#[test]
fn missing_part_heading_is_reported() {
    let mut blocks = vec![SolutionFlowBlock {
        block_type: "text".into(),
        content: "本文".into(),
        ..Default::default()
    }];
    let err = promote_flow_part_headings(&mut blocks, &[" (2) ".to_string()]).unwrap_err();
    assert_eq!(
        err,
        "考え方に答案の設問見出し「(2)」がありません。設問が切り替わる位置へ独立したheading Blockとして入れてください"
    );
}

#[test]
fn exact_flow_rendering() {
    let flow = render_flow_blocks(&[SolutionFlowBlock {
        block_type: "caution".into(),
        content: " 注意 ".into(),
        ..Default::default()
    }]);
    assert_eq!(
        flow,
        "{\\setlength{\\abovedisplayskip}{0.4em}%\n\\setlength{\\belowdisplayskip}{0.4em}%\n\\setlength{\\abovedisplayshortskip}{0.25em}%\n\\setlength{\\belowdisplayshortskip}{0.25em}%\n\\par\\smallskip\n\\noindent\\textbf{【注意】} 注意\\par\n}"
    );
    assert_eq!(render_flow_blocks(&[]), "");
}

#[test]
fn legacy_alternatives_are_numbered() {
    let mut a = variant("alternative", vec![]);
    a.explanation = Some(" 別 ".into());
    let mut m = variant("main", vec![]);
    m.explanation = Some("主".into());
    assert_eq!(render_teaching_flow_latex(&[], &[a, m]), "主\n\n【別解1】\n別");
}
