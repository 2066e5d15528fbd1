use kyozai_kobo::graphics::select_graphics_bounding_box_sources;
use kyozai_kobo::graph_integration::safe_manifest_file_name;
use kyozai_kobo::latex::includegraphics_references;
use kyozai_kobo::problems::check_expected_version;
use kyozai_kobo::templates::{
    analyze_tex_file, extract_between, imported_template_name, referenced_names, tex_packages, template_from_tex};

fn chars(s: &str) -> Vec<char> {
    s.chars().collect()
}

fn text(v: &[char]) -> String {
    v.iter().collect()
}

#[test]
fn graphics_references_are_normalised_paths() {
    let refs = includegraphics_references(
        "\\includegraphics[width=3cm]{./Assets\\Graphs/A.PDF}\n\\includegraphics* {b.png}\\includegraphics{ }\\includegraphics[oops",
    );
    assert_eq!(refs, vec!["assets/graphs/a.pdf".to_string(), "b.png".to_string()]);
    assert!(includegraphics_references("no graphics").is_empty());
}

#[test]
fn imported_tex_gets_body_placeholders() {
    let (p, a) = template_from_tex("pre\\begin{document}old\\end{document}", "replace_body").unwrap();
    assert_eq!(p, "pre\\begin{document}\n\n{{BODY}}\n\n\\end{document}");
    assert_eq!(a, "pre\\begin{document}\n\n{{ANSWER_BODY}}\n\n\\end{document}");
    let (p, a) = template_from_tex("x {{BODY}}", "as_is").unwrap();
    assert_eq!(p, "x {{BODY}}");
    assert_eq!(a, "x {{ANSWER_BODY}}");
    assert_eq!(
        template_from_tex("\\end{document}\\begin{document}", "replace_body"),
        Err("\\begin{document} と \\end{document} の順序が不正です".to_string())
    );
    assert_eq!(
        template_from_tex("nothing", "replace_body"),
        Err("\\begin{document} が見つかりません".to_string())
    );
}

#[test]
fn packages_are_read_once_each() {
    let c = chars("\\documentclass[a4paper]{ujarticle}\n\\usepackage{amsmath, amssymb}\n\\usepackage[dvipdfmx]{graphicx}\n\\usepackage{amsmath}");
    let classes: Vec<String> = extract_between(&c, "\\documentclass").iter().map(|v| text(v)).collect();
    assert_eq!(classes, vec!["ujarticle".to_string()]);
    let packages: Vec<String> = tex_packages(&c).iter().map(|v| text(v)).collect();
    assert_eq!(packages, vec!["amsmath".to_string(), "amssymb".to_string(), "graphicx".to_string()]);
}

#[test]
fn stale_edits_are_refused_with_the_current_version() {
    assert_eq!(check_expected_version(None, 4), Ok(()));
    assert_eq!(check_expected_version(Some(4), 4), Ok(()));
    assert_eq!(check_expected_version(Some(3), 4), Err("CONFLICT:4".to_string()));
}

#[test]
fn manifest_file_names_must_be_bare_and_of_an_allowed_kind() {
    assert_eq!(safe_manifest_file_name(Some(" graph.PDF "), "graph.primaryAsset", &["pdf", "svg"]), Ok("graph.PDF".to_string()));
    assert_eq!(
        safe_manifest_file_name(None, "graph.primaryAsset", &["pdf"]),
        Err("manifest is missing graph.primaryAsset".to_string())
    );
    assert_eq!(
        safe_manifest_file_name(Some("../x.pdf"), "f", &["pdf"]),
        Err("manifest f must be a file name".to_string())
    );
    assert_eq!(safe_manifest_file_name(Some(".."), "f", &["pdf"]), Err("manifest f must not contain a path".to_string()));
    assert_eq!(
        safe_manifest_file_name(Some("x.exe"), "f", &["pdf"]),
        Err("manifest f has an unsupported extension".to_string())
    );
    assert_eq!(
        safe_manifest_file_name(Some(".pdf"), "f", &["pdf"]),
        Err("manifest f has an unsupported extension".to_string())
    );
}

#[test]
fn the_image_measured_is_the_one_referenced_or_the_preferred_format() {
    let groups = vec![
        vec!["assets/graph.png".to_string(), "assets/graph.pdf".to_string()],
        vec!["fig.JPG".to_string(), "fig.bmp".to_string()],
    ];
    let chosen = select_graphics_bounding_box_sources(&groups, "\\includegraphics[width=3cm]{./Assets/graph.png}").unwrap();
    assert_eq!(chosen, vec!["assets/graph.png".to_string(), "fig.JPG".to_string()]);
    let preferred = select_graphics_bounding_box_sources(&groups, "no images").unwrap();
    assert_eq!(preferred[0], "assets/graph.pdf");
    let both = select_graphics_bounding_box_sources(
        &groups,
        "\\includegraphics{assets/graph.png} \\includegraphics{assets/graph.pdf}",
    );
    assert_eq!(
        both.unwrap_err(),
        "同名で形式の異なる画像を同時に参照できません: assets/graph.pdf, assets/graph.png"
    );
}

const IMPORTED: &str = "\\documentclass[a4paper]{jsarticle}\n\\usepackage{amsmath, graphicx}\n\\usepackage{amsmath}\n\\begin{document}\n\\includegraphics[width=3cm]{logo}\n\\input{ header.tex }\n\\include{{{BODY}}}\n\\includegraphics{}\n\\end{document}";

#[test]
fn imported_tex_references_are_scanned_in_order() {
    assert_eq!(referenced_names(IMPORTED), vec!["logo".to_string(), "header.tex".to_string()]);
    assert_eq!(referenced_names("\\input{a}\\includegraphics{b}\\include{c}"), vec!["b".to_string(), "a".to_string(), "c".to_string()]);
    assert!(referenced_names("\\includegraphics{unclosed").is_empty());
}

#[test]
fn imported_tex_is_analyzed() {
    let a = analyze_tex_file(IMPORTED.to_string(), vec!["logo.png".to_string()]);
    assert_eq!(a.doc_class, "jsarticle");
    assert_eq!(a.packages, vec!["amsmath".to_string(), "graphicx".to_string()]);
    assert!(a.has_body_placeholder);
    assert!(!a.has_markers);
    assert!(a.has_document_env);
    assert_eq!(a.referenced_files, vec!["logo.png".to_string()]);
    assert_eq!(a.content, IMPORTED);
    let b = analyze_tex_file("plain".to_string(), vec![]);
    assert_eq!(b.doc_class, "");
    assert!(b.packages.is_empty());
    assert!(!b.has_body_placeholder && !b.has_document_env);
}

#[test]
fn imported_templates_are_named_from_the_file_when_no_name_is_given() {
    assert_eq!(imported_template_name("  期末 ", Some("exam".to_string())), "期末");
    assert_eq!(imported_template_name("   ", Some("exam".to_string())), "exam");
    assert_eq!(imported_template_name("", None), "取り込みテンプレート");
}
