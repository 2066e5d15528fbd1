use kyozai_kobo::graphs::{
    build_store_zip, clean_title, clean_warnings, crc32, duplicate_graph, graph_snapshot_result, graph_source_or,
    graph_type_or, safe_graph_id, validate_export, GraphFull, GraphSummary,
};

#[test]
fn svg_validation_rejects_script() {
    assert!(validate_export("svg", b"<svg xmlns='http://www.w3.org/2000/svg'></svg>").is_ok());
    assert!(validate_export("svg", b"<?xml version='1.0' encoding='UTF-8'?>\n<svg xmlns='http://www.w3.org/2000/svg'></svg>").is_ok());
    assert!(validate_export("svg", b"<svg><script>alert(1)</script></svg>").is_err());
    assert!(validate_export("svg", b"<?xml version='1.0'?><html></html>").is_err());
}

#[test]
fn store_zip_has_local_and_end_records() {
    let zip = build_store_zip(&[("graph.json".into(), br#"{"version":1}"#.to_vec())]).unwrap();
    assert!(zip.starts_with(&0x0403_4b50u32.to_le_bytes()));
    assert!(zip.windows(4).any(|value| value == 0x0201_4b50u32.to_le_bytes()));
    assert!(zip.windows(4).any(|value| value == 0x0605_4b50u32.to_le_bytes()));
}

#[test]
fn exports_are_checked_by_signature_and_content() {
    assert!(validate_export("pdf", b"%PDF-1.7 ...").is_ok());
    assert_eq!(validate_export("pdf", b"not a pdf"), Err("pdf の実ファイル形式が一致しません".to_string()));
    assert!(validate_export("png", &[0x89, b'P', b'N', b'G', 0x0d, 0x0a, 0x1a, 0x0a, 0]).is_ok());
    assert!(validate_export("tex", b"\\begin{tikzpicture}\\end{tikzpicture}").is_ok());
    assert_eq!(validate_export("tex", b"\\WRITE18{rm}"), Err("TikZに危険な命令があります".to_string()));
    assert_eq!(validate_export("svg", &[0xff, 0xfe]), Err("SVGはUTF-8である必要があります".to_string()));
    assert_eq!(validate_export("svg", b"<?xml version='1.0'"), Err("SVGのXML宣言が不正です".to_string()));
    assert!(validate_export("svg", "\u{feff}  <SVG></SVG>".as_bytes()).is_ok());
    assert!(validate_export("svg", b"<svg onload=\"x\"></svg>").is_err());
    assert_eq!(validate_export("gif", b"GIF89a"), Err("gif の実ファイル形式が一致しません".to_string()));
}

#[test]
fn crc32_matches_the_standard_check_value() {
    assert_eq!(crc32(b"123456789"), 0xcbf4_3926);
    assert_eq!(crc32(b""), 0);
}

#[test]
fn store_zip_layout_is_exact_for_one_file() {
    let zip = build_store_zip(&[("a".into(), b"xy".to_vec())]).unwrap();
    // local header (30) + name (1) + data (2) + central entry (46) + name (1) + end record (22)
    assert_eq!(zip.len(), 30 + 1 + 2 + 46 + 1 + 22);
    let crc = crc32(b"xy").to_le_bytes();
    assert_eq!(&zip[14..18], &crc);
    assert_eq!(&zip[30..33], b"axy");
    let end = &zip[zip.len() - 22..];
    assert_eq!(&end[0..4], &0x0605_4b50u32.to_le_bytes());
    assert_eq!(&end[8..10], &1u16.to_le_bytes());
    assert_eq!(&end[12..16], &47u32.to_le_bytes());
    assert_eq!(&end[16..20], &33u32.to_le_bytes());
    assert_eq!(build_store_zip(&[]), Err("ZIPへまとめるファイル数が不正です".to_string()));
}

#[test]
fn graph_ids_titles_and_kinds_are_normalised() {
    assert!(safe_graph_id("graph_ab-12"));
    assert!(!safe_graph_id("../x"));
    assert!(!safe_graph_id(""));
    assert_eq!(clean_title("  "), Ok("無題のグラフ".to_string()));
    assert_eq!(clean_title(" 放物線 "), Ok("放物線".to_string()));
    assert_eq!(clean_title(&"あ".repeat(201)), Err("タイトルは200文字以内にしてください".to_string()));
    assert_eq!(graph_type_or(Some("geometry".into()), "function_graph"), "geometry");
    assert_eq!(graph_type_or(Some("x".into()), "function_graph"), "function_graph");
    assert_eq!(graph_source_or(None, "manual"), "manual");
    assert_eq!(graph_source_or(Some("import".into()), "manual"), "import");
}

#[test]
fn a_duplicated_graph_is_a_manual_copy() {
    let graph = GraphFull {
        summary: GraphSummary {
            title: "放物線".into(),
            graph_type: "geometry".into(),
            source_type: "ai_text".into(),
            warnings: vec!["w".into()],
            ..Default::default()
        },
        graph_json: "{}".into(),
    };
    let copy = duplicate_graph(&graph);
    assert_eq!(copy.title, "放物線 (コピー)");
    assert_eq!(copy.graph_json, "{}");
    assert_eq!(copy.graph_type.as_deref(), Some("geometry"));
    assert_eq!(copy.source_type.as_deref(), Some("manual"));
    assert_eq!(copy.warnings, Some(vec!["w".to_string()]));
}

#[test]
fn snapshot_latex_points_at_the_frozen_pdf() {
    let r = graph_snapshot_result("graphasset_1".into(), "0.5\\linewidth");
    assert_eq!(r.asset_id, "graphasset_1");
    assert_eq!(
        r.inserted_latex,
        "\\begin{center}\n  \\includegraphics[width=0.5\\linewidth,height=0.72\\textheight,keepaspectratio]{assets/graphs/snapshots/graphasset_1/graph.pdf}\n\\end{center}"
    );
}

#[test]
fn graph_warnings_are_capped_in_number_and_length() {
    let many: Vec<String> = (0..150).map(|i| format!("w{i}")).collect();
    let kept = clean_warnings(Some(many));
    assert_eq!(kept.len(), 100);
    assert_eq!(kept[99], "w99");
    let long = clean_warnings(Some(vec!["あ".repeat(600)]));
    assert_eq!(long[0].chars().count(), 500);
    assert!(clean_warnings(None).is_empty());
}
