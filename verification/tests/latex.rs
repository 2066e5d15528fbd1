use std::path::PathBuf;

use kyozai_kobo::latex::{
    build_preview_doc, escape_latex, export_file_base, generate_tex, managed_graph_reference,
    preview_template_text, render_bodies, render_document, sample_items, sample_settings, sanitize_filename,
    template_snapshot, template_test_tex, Bodies, ProjectData,
};
use kyozai_kobo::models::{ProjectItem, ProjectSettings};
use kyozai_kobo::templates::{validate_templates, DEFAULT_ANSWER_TEMPLATE, DEFAULT_PROBLEM_TEMPLATE};

fn plain_settings() -> ProjectSettings {
    ProjectSettings {
        number_format: "問題{n}".into(),
        auto_number: true,
        two_column_mode: "none".into(),
        difficulty_display: "none".into(),
        required_display: "none".into(),
        ..Default::default()
    }
}

fn problem(statement: &str, answer: &str, explanation: &str) -> ProjectItem {
    ProjectItem {
        item_type: "problem".into(),
        snap_statement: statement.into(),
        snap_answer: answer.into(),
        snap_explanation: explanation.into(),
        ..Default::default()
    }
}

fn heading(text: &str, level: i64, numbered: bool) -> ProjectItem {
    ProjectItem {
        item_type: "heading".into(),
        content: text.into(),
        heading_level: level,
        heading_numbered: numbered,
        ..Default::default()
    }
}

#[test]
fn managed_graph_reference_rejects_traversal() {
    assert_eq!(
        managed_graph_reference("assets/graphs/snapshots/graphasset_1/graph.pdf").map(PathBuf::from),
        Some(PathBuf::from("snapshots/graphasset_1/graph.pdf"))
    );
    assert!(managed_graph_reference("assets/graphs/../attachments/secret.pdf").is_none());
    assert!(managed_graph_reference("attachments/graph.pdf").is_none());
}

#[test]
fn managed_graph_reference_rejects_empty_dot_and_drive_segments() {
    assert!(managed_graph_reference("assets/graphs/").is_none());
    assert!(managed_graph_reference("assets/graphs/a//b.pdf").is_none());
    assert!(managed_graph_reference("assets/graphs/./b.pdf").is_none());
    assert!(managed_graph_reference("assets/graphs/C:/b.pdf").is_none());
    assert_eq!(managed_graph_reference("assets/graphs/x.pdf"), Some("x.pdf".to_string()));
}

#[test]
fn latex_special_characters_are_escaped() {
    assert_eq!(escape_latex("a_b & {c}%"), "a\\_b \\& \\{c\\}\\%");
    assert_eq!(
        escape_latex("\\~^#$"),
        "\\textbackslash{}\\textasciitilde{}\\textasciicircum{}\\#\\$"
    );
    assert_eq!(escape_latex("二次関数"), "二次関数");
}

#[test]
fn file_names_lose_unsafe_characters() {
    assert_eq!(sanitize_filename(" a/b:c* "), "a_b_c_");
    assert_eq!(sanitize_filename("   "), "教材");
    assert_eq!(export_file_base("数学I", "answers"), "数学I_解答");
    assert_eq!(export_file_base("数学I", "combined"), "数学I_合本");
    assert_eq!(export_file_base("a|b", "problems"), "a_b_問題");
}

#[test]
fn a_numbered_problem_renders_into_all_bodies() {
    let settings = ProjectSettings { include_explanation: true, ..plain_settings() };
    let bodies = render_bodies(&[problem("S", "A", "E")], &settings);
    let head = "\\par\\medskip\n\\noindent\\textbf{問題1}\\par\n";
    assert_eq!(bodies.body, format!("{head}S\n\\par\\medskip\n\n"));
    assert_eq!(
        bodies.answer_plain,
        format!("{head}\\noindent\\textbf{{【解答】}}\\par\nA\n\\par\\medskip\n\n")
    );
    assert_eq!(
        bodies.answer_inline,
        format!(
            "{head}\\noindent\\textbf{{【解答】}}\\par\nA\n\\par\\vspace{{0.5em}}\n\\noindent\\textbf{{【解説】}}\\par\nE\n\\par\\medskip\n\n"
        )
    );
    assert_eq!(bodies.explanation, format!("{head}\\noindent\\textbf{{【解説】}}\\par\nE\n\\par\\medskip\n\n"));
}

#[test]
fn numbering_restarts_in_each_numbered_chapter() {
    let settings = ProjectSettings {
        number_headings: true,
        reset_numbering_per_chapter: true,
        ..plain_settings()
    };
    let items = vec![
        heading("関数", 1, true),
        problem("P", "", ""),
        problem("Q", "", ""),
        heading("図形", 1, true),
        problem("R", "", ""),
    ];
    let bodies = render_bodies(&items, &settings);
    assert!(bodies.body.starts_with("\\section{関数}\n\n"));
    assert!(bodies.body.contains("\\textbf{問題1-1}"));
    assert!(bodies.body.contains("\\textbf{問題1-2}"));
    assert!(bodies.body.contains("\\textbf{問題2-1}"));
    assert!(bodies.answer_plain.starts_with("\\section*{1　関数}\n\n"));
    assert!(bodies.answer_plain.contains("\\section*{2　図形}\n\n"));
}

#[test]
fn difficulty_marks_follow_the_display_setting() {
    let settings = ProjectSettings {
        difficulty_display: "top_right".into(),
        required_display: "required_only".into(),
        ..plain_settings()
    };
    let item = ProjectItem { snap_is_required: true, snap_difficulty_rank: Some("B".into()), ..problem("S", "", "") };
    let bodies = render_bodies(&[item.clone()], &settings);
    assert!(bodies.body.starts_with(
        "\\par\\medskip\n\\noindent\\textbf{問題1}\\hfill {\\small ★\\;B}\\par\n"
    ));
    let side = ProjectSettings { difficulty_display: "number_side".into(), ..settings };
    let bodies = render_bodies(&[item], &side);
    assert!(bodies.body.starts_with(
        "\\par\\medskip\n\\noindent\\textbf{問題1}\\nobreak\\hspace{0.15em}{\\scriptsize ★B}\\par\n"
    ));
}

#[test]
fn parts_go_to_the_booklets_they_target() {
    let part = |target: &str| ProjectItem {
        item_type: "part".into(),
        content: "X".into(),
        snap_part_output_target: target.into(),
        ..Default::default()
    };
    let bodies = render_bodies(&[part("problems"), part("answers"), part("none")], &plain_settings());
    assert_eq!(bodies.body, "X\n\n");
    assert_eq!(bodies.answer_plain, "X\n\n");
    let page = ProjectItem { snap_part_type: "page_break".into(), content: " ".into(), ..part("both") };
    let bodies = render_bodies(&[page], &plain_settings());
    assert_eq!(bodies.body, "\\newpage\n\n");
}

#[test]
fn a_boxed_statement_takes_the_problem_label_as_title() {
    let settings = ProjectSettings {
        include_statement_in_answers: true,
        box_statement_in_answers: true,
        ..plain_settings()
    };
    let bodies = render_bodies(&[problem("S", "A", "")], &settings);
    assert!(bodies.answer_plain.contains(",title={\\textbf{問題1}}]\nS\n\\end{tcolorbox}\n"));
}

#[test]
fn a_template_is_filled_with_title_body_and_name_field() {
    let tpl = "\\documentclass{x}\n\\begin{document}\n{{TITLE}}\n{{NAME_FIELD}}\n{{BODY}}\n\\end{document}\n";
    let settings = ProjectSettings {
        show_title: true,
        target: "高1".into(),
        show_name_field: true,
        ..plain_settings()
    };
    let bodies = Bodies {
        body: "B".into(),
        answer_plain: "AP".into(),
        answer_inline: "AI".into(),
        explanation: "E".into(),
    };
    let doc = render_document(tpl, "problems", "数学_1", &settings, &bodies);
    assert_eq!(
        doc,
        "\\documentclass{x}\n\\begin{document}\n数学\\_1\n\\begin{flushright}\n高1 \\quad 氏名\\ \\underline{\\hspace{5cm}}\n\\end{flushright}\nB\n\\end{document}\n"
    );
    let answers = render_document(tpl, "answers", "数学", &settings, &bodies);
    assert!(answers.contains("\nAI\n"));
    assert!(!answers.contains("氏名"));
}

#[test]
fn body_markers_replace_the_region_between_them() {
    let tpl = "pre\n% APP_BODY_START\nold\n% APP_BODY_END\npost";
    let bodies = Bodies { body: "NEW".into(), ..Bodies { body: String::new(), answer_plain: String::new(), answer_inline: String::new(), explanation: String::new() } };
    let doc = render_document(tpl, "problems", "p", &plain_settings(), &bodies);
    assert_eq!(doc, "pre\n% APP_BODY_START\nNEW\n% APP_BODY_END\npost");
}

#[test]
fn tcolorbox_is_loaded_when_a_box_is_used() {
    let settings = ProjectSettings {
        include_statement_in_answers: true,
        box_statement_in_answers: true,
        ..plain_settings()
    };
    let bodies = render_bodies(&[problem("S", "A", "")], &settings);
    let doc = render_document("\\begin{document}\n{{ANSWER_BODY}}\n\\end{document}", "answers", "p", &settings, &bodies);
    assert!(doc.starts_with("\\usepackage{tcolorbox}\n\\tcbuselibrary{skins}\n\\begin{document}"));
}

#[test]
fn preview_uses_the_template_preamble_without_placeholders() {
    let doc = build_preview_doc("\\documentclass{x}\n\\lhead{{{TITLE}}}\n\\begin{document}\nbody\n", "S", "A", " ");
    assert_eq!(
        doc,
        "\\documentclass{x}\n\\lhead{}\n\\pagestyle{empty}\n\\begin{document}\nS\n\\par\\vspace{0.8em}\n\\noindent\\textbf{【解答】}\\par\nA\n\\end{document}\n"
    );
    let fallback = build_preview_doc("no document here", "S", "", "");
    assert!(fallback.starts_with("\\documentclass[uplatex,a4paper,11pt]{ujarticle}"));
    assert!(!fallback.contains("{{HEADER_LEFT}}"));
}

#[test]
fn blank_templates_fall_back_to_shared_then_built_in() {
    let t = template_snapshot("n".into(), "BASE", "  ".into(), String::new(), vec![], "m".into());
    assert_eq!(t.problem, "BASE");
    assert_eq!(t.answer, "BASE");
    let t = template_snapshot("n".into(), "", "P".into(), String::new(), vec![], "m".into());
    assert_eq!(t.problem, "P");
    assert_eq!(t.answer, DEFAULT_ANSWER_TEMPLATE);
}

#[test]
fn generated_tex_uses_the_template_of_the_booklet_kind() {
    let data = ProjectData {
        name: "教材".into(),
        settings: plain_settings(),
        items: vec![problem("S", "A", "")],
        tpl: template_snapshot("t".into(), "", "P:{{BODY}}".into(), "A:{{ANSWER_BODY}}".into(), vec![], String::new()),
    };
    let problems = generate_tex(&data, "problems");
    assert!(problems.starts_with("P:\\par\\medskip"));
    let answers = generate_tex(&data, "answers");
    assert!(answers.starts_with("A:\\par\\medskip"));
    assert!(answers.contains("【解答】"));
}

#[test]
fn template_checks_report_missing_bodies_and_unknown_placeholders() {
    assert_eq!(
        validate_templates("", "", ""),
        vec![
            "問題冊子用テンプレートが空です（共通テンプレートも未設定）。".to_string(),
            "解答冊子用テンプレートが空です（共通テンプレートも未設定）。".to_string(),
        ]
    );
    assert!(validate_templates(DEFAULT_PROBLEM_TEMPLATE, "", DEFAULT_ANSWER_TEMPLATE).is_empty());
    let warnings = validate_templates("\\begin{document}{{BODY}}{{FOO}}{{FOO}}{{lower}}", "", "");
    assert_eq!(
        warnings,
        vec!["不明なプレースホルダ {{FOO}} があります（置換されません）。".to_string()]
    );
    let twice = validate_templates("\\begin{document}{{BODY}}\n% APP_BODY_START\n% APP_BODY_END", "", "");
    assert_eq!(twice.len(), 2);
}

#[test]
fn previews_use_the_problem_template_then_the_shared_one_then_the_built_in_one() {
    assert_eq!(preview_template_text(Some(("base".into(), "problem".into()))), "problem");
    assert_eq!(preview_template_text(Some(("base".into(), "  ".into()))), "base");
    assert_eq!(preview_template_text(Some((" ".into(), "".into()))), DEFAULT_PROBLEM_TEMPLATE);
    assert_eq!(preview_template_text(None), DEFAULT_PROBLEM_TEMPLATE);
}

#[test]
fn templates_are_tried_out_on_two_sample_problems() {
    let items = sample_items();
    assert_eq!(items.len(), 2);
    assert!(items[0].snap_statement.contains("二次関数"));
    assert_eq!(items[1].snap_difficulty_rank.as_deref(), Some("B"));
    let settings = sample_settings("2024年01月01日".into());
    assert_eq!(settings.booklet_title, "テンプレートプレビュー");
    assert_eq!(settings.difficulty_display, "number_side");
    let tex = template_test_tex("", String::new(), String::new(), "problems", "2024年01月01日".into());
    let data = ProjectData {
        name: "テンプレートプレビュー".into(),
        settings,
        items,
        tpl: template_snapshot("テンプレートプレビュー".into(), "", String::new(), String::new(), vec![], String::new()),
    };
    assert_eq!(tex, generate_tex(&data, "problems"));
    assert!(tex.contains("平方完成") || tex.contains("二次関数"));
}
