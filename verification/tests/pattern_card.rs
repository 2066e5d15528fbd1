use kyozai_kobo::models::{PatternFacets, PatternSnapshot, PatternStrategyInput};
use kyozai_kobo::pattern_card::{
    entry_lines, join_item_lines, render_pattern_card, render_pattern_card_with_usage,
    text_lines, title_text,
};

fn strategy(title: &str, description: &str) -> PatternStrategyInput {
    PatternStrategyInput {
        id: None,
        parent_strategy_id: None,
        title: title.into(),
        description: description.into(),
        condition: String::new(),
        reasoning: String::new(),
        branch_label: String::new(),
        sort_order: 1,
    }
}

fn snapshot() -> PatternSnapshot {
    PatternSnapshot {
        version: 1,
        uuid: "uuid".into(),
        title: "関数値の差 \\(f(b)-f(a)\\) の扱い".into(),
        summary: "カードに出さない概要".into(),
        pattern_type: "strategy".into(),
        situation: "カードに出さない状況".into(),
        principle: "カードに出さない基本原則".into(),
        cautions: "カードに出さない注意".into(),
        examples: "カードに出さない例".into(),
        source_note: "出典".into(),
        tags: vec![],
        facets: PatternFacets::default(),
        strategies: vec![
            strategy(
                "平均値の定理の利用",
                "関数 \\(y=f(x)\\) が微分可能で \\(a<b\\) であるとき\n\\[\\begin{cases}\\dfrac{f(b)-f(a)}{b-a}=f'(c)\\\\a<c<b\\end{cases}\\]\nとなる \\(c\\) が存在する",
            ),
            strategy(
                "定積分の評価の利用",
                "\\(f(b)-f(a)=\\left[f(x)\\right]_a^b\\) を作り、\\(a\\leqq x\\leqq b\\) において \\(f'(x)\\) を単調性や最大最小等から評価してはさむ",
            ),
        ],
    }
}

#[test]
fn several_entries_are_listed_as_items() {
    let tex = render_pattern_card(&snapshot());
    assert!(tex.starts_with("\\begin{tcolorbox}[title={関数値の差 \\(f(b)-f(a)\\) の扱い}]"));
    assert_eq!(tex.matches("\\begin{itemize}").count(), 1);
    assert_eq!(tex.matches("\\end{itemize}").count(), 1);
    assert_eq!(tex.matches("\\item ").count(), 2);
    assert!(tex.contains("\\setlength{\\itemsep}{5pt}"));
    assert!(tex.contains("\\item 平均値の定理の利用"));
    assert!(tex.contains("\\dfrac{f(b)-f(a)}{b-a}=f'(c)"));
    assert!(tex.trim_end().ends_with("\\end{tcolorbox}"));
}

#[test]
fn a_single_entry_is_inserted_without_an_itemize() {
    let mut snapshot = snapshot();
    snapshot.strategies.truncate(1);
    let tex = render_pattern_card(&snapshot);
    assert!(
        !tex.contains("\\begin{itemize}"),
        "候補が1つなら箇条書きにしない"
    );
    assert!(!tex.contains("\\item"));
    assert!(tex.contains("平均値の定理の利用"));
    assert!(tex.contains("\\dfrac{f(b)-f(a)}{b-a}=f'(c)"));
}

#[test]
fn usage_metadata_does_not_change_the_pattern_card() {
    let mut snapshot = snapshot();
    snapshot.strategies[0].id = Some(101);
    snapshot.strategies[1].id = Some(102);
    let with_usage = render_pattern_card_with_usage(&snapshot, &[101]);
    let without_usage = render_pattern_card(&snapshot);
    assert_eq!(with_usage, without_usage);
    assert!(!with_usage.contains("今回使用"));
    assert!(with_usage.contains("平均値の定理の利用"));
    assert!(with_usage.contains("定積分の評価の利用"));
    assert_eq!(with_usage.matches("\\item ").count(), 2);
}

#[test]
fn only_the_candidate_strategies_reach_the_card() {
    let tex = render_pattern_card(&snapshot());
    for hidden in [
        "カードに出さない概要",
        "カードに出さない状況",
        "カードに出さない基本原則",
        "カードに出さない注意",
        "カードに出さない例",
    ] {
        assert!(!tex.contains(hidden), "{hidden} はカードへ出さない");
    }
    assert!(!tex.contains("こう見えたら"));
    assert!(!tex.contains("基本の考え方"));
    assert!(!tex.contains("\\textbf{注意}"));
    assert!(!tex.contains("\\textbf{例}"));
}

#[test]
fn display_math_is_not_preceded_or_followed_by_a_line_break_command() {
    let tex = render_pattern_card(&snapshot());
    assert!(
        !tex.contains("\\\\\n  \\["),
        "別行立て数式の前に改行命令を置かない"
    );
    assert!(
        !tex.contains("\\]\\\\"),
        "別行立て数式の直後に改行命令を置かない"
    );
    assert!(
        tex.contains("平均値の定理の利用\\\\"),
        "見出しと本文は改行でつなぐ"
    );
}

#[test]
fn broken_title_braces_are_repaired() {
    let mut snapshot = snapshot();
    snapshot.title = "壊れた}見出し\\(\\frac{1}{2}".into();
    let tex = render_pattern_card(&snapshot);
    assert!(tex.contains("title={壊れた見出し\\(\\frac{1}{2}}"));
}

#[test]
fn a_card_without_entries_does_not_emit_an_empty_itemize() {
    let mut snapshot = snapshot();
    snapshot.strategies = vec![];
    let tex = render_pattern_card(&snapshot);
    assert!(!tex.contains("\\begin{itemize}"));
    assert!(tex.contains("\\begin{tcolorbox}"));
    assert!(tex.trim_end().ends_with("\\end{tcolorbox}"));
}

#[test]
fn entry_extras_are_not_rendered_as_separate_lines() {
    let mut snapshot = snapshot();
    snapshot.strategies[0].condition = "旧データの適用条件".into();
    snapshot.strategies[0].reasoning = "旧データの理由".into();
    let tex = render_pattern_card(&snapshot);
    assert!(!tex.contains("旧データの適用条件"));
    assert!(!tex.contains("旧データの理由"));
    assert!(!tex.contains("使う場面"));
    assert!(!tex.contains("なぜ有効か"));
}

#[test]
fn exact_card_for_a_single_candidate() {
    let mut snapshot = snapshot();
    snapshot.title = "T".into();
    snapshot.strategies = vec![strategy(" A ", "x\n\n  y  \n\\[z\\]\nw")];
    assert_eq!(
        render_pattern_card(&snapshot),
        "\\begin{tcolorbox}[title={T}]\n  A\\\\\n  x\\\\\n  y\n  \\[z\\]\n  w\n\\end{tcolorbox}\n"
    );
}

#[test]
fn blank_title_gives_a_card_without_title_option() {
    let mut snapshot = snapshot();
    snapshot.title = "  \n ".into();
    snapshot.strategies = vec![strategy("   ", "ignored")];
    assert_eq!(render_pattern_card(&snapshot), "\\begin{tcolorbox}\n\\end{tcolorbox}\n");
}

#[test]
fn title_text_closes_open_braces_and_flattens_lines() {
    assert_eq!(title_text(" a{b\nc{ "), "a{b c{}}");
    assert_eq!(title_text("}}x"), "x");
}

#[test]
fn text_lines_trims_and_drops_blank_lines() {
    assert_eq!(text_lines(" a \r\n\n b\n"), vec!["a".to_string(), "b".to_string()]);
    assert!(text_lines("").is_empty());
}

#[test]
fn item_lines_join_around_display_math() {
    let lines = vec!["a".to_string(), "\\[x\\]".to_string(), "b".to_string()];
    assert_eq!(join_item_lines(&lines, "  "), "a\n  \\[x\\]\n  b");
    assert!(entry_lines(&strategy("", "x")).is_none());
    assert_eq!(entry_lines(&strategy(" t ", "d")).unwrap(), vec!["t".to_string(), "d".to_string()]);
}
