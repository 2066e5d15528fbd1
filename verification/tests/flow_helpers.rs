use kyozai_kobo::flow_headings::{
    is_solution_method_heading, is_standalone_part_heading, strip_leading_part_marker, strip_solution_heading_wrapper,
};
use kyozai_kobo::flow_normalize::non_empty;
use kyozai_kobo::flow_render::{
    candidate_action_name, compact_plain_formula_for_columns, default_pattern_usage_explanation, display_formula_inner,
};
use kyozai_kobo::models::SolutionFlowBlock;
use kyozai_kobo::patterns::normalized_relation;

#[test]
fn heading_wrappers_are_stripped() {
    assert_eq!(strip_solution_heading_wrapper("  \\noindent\\textbf{【解法1】}\\par "), "【解法1】");
    assert_eq!(strip_solution_heading_wrapper("解法2\\\\"), "解法2");
    assert_eq!(strip_solution_heading_wrapper("   "), "");
}

#[test]
fn method_and_part_headings_are_recognised() {
    assert!(is_solution_method_heading("(1) 解法1"));
    assert!(is_solution_method_heading("【別解】"));
    assert!(!is_solution_method_heading("（２）別解"));
    assert!(!is_solution_method_heading("解答"));
    assert!(is_standalone_part_heading("（3）"));
    assert!(is_standalone_part_heading(" (12) "));
    assert!(!is_standalone_part_heading("(1) 解法"));
    assert!(!is_standalone_part_heading("()"));
    assert_eq!(strip_leading_part_marker("  (2)では、x", "(2)"), Some("x".to_string()));
    assert_eq!(strip_leading_part_marker("(2) , y", "(2)"), Some("y".to_string()));
    assert_eq!(strip_leading_part_marker("(3) x", "(2)"), None);
}

#[test]
fn formulas_are_laid_out_for_columns() {
    assert_eq!(compact_plain_formula_for_columns(" a=1 \\qquad b=2, "), "a=1 \\qquad b=2,");
    assert_eq!(
        compact_plain_formula_for_columns("a \\qquad b \\qquad c"),
        "\\begin{gathered}\na\\\\\nb\\\\\nc\n\\end{gathered}"
    );
    assert_eq!(compact_plain_formula_for_columns("\\begin{cases}a \\qquad b \\qquad c\\end{cases}"),
        "\\begin{cases}a \\qquad b \\qquad c\\end{cases}");
    assert_eq!(display_formula_inner("x"), "\\[\nx\n\\]\n");
}

#[test]
fn pattern_usage_names_the_action() {
    assert_eq!(candidate_action_name(" 置換積分の利用 "), "置換積分");
    assert_eq!(candidate_action_name("部分積分の活用"), "部分積分");
    assert_eq!(candidate_action_name("定石"), "定石");
    assert_eq!(default_pattern_usage_explanation(&SolutionFlowBlock::default()), "ここでは、この定石を用いる。");
}

#[test]
fn required_fields_are_checked() {
    assert_eq!(non_empty("  ", "本文"), Err("本文が空です".to_string()));
    assert_eq!(
        non_empty("a\u{7}", "本文"),
        Err("本文にLaTeXで扱えない制御文字が含まれています。考え方を再生成してください".to_string())
    );
    assert_eq!(non_empty("a\tb\r\n", "本文"), Ok(()));
    assert_eq!(non_empty(&"x".repeat(50_001), "本文"), Err("本文が長すぎます".to_string()));
    assert_eq!(non_empty(&"x".repeat(50_000), "本文"), Ok(()));
    assert_eq!(normalized_relation("  ", "related"), "related");
    assert_eq!(normalized_relation(" uses ", "related"), "uses");
}
