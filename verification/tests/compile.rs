use kyozai_kobo::compile::{
    after_latex_run, after_pdf_run, check_tex_size, compile_log, latex_error_message, LatexStep, LATEX_FAILED,
    MAX_PDF_BYTES, MAX_TEX_BYTES, PDF_FAILED,
};

#[test]
fn oversized_sources_are_refused_before_compiling() {
    assert_eq!(check_tex_size(0), Ok(()));
    assert_eq!(check_tex_size(MAX_TEX_BYTES), Ok(()));
    assert_eq!(check_tex_size(MAX_TEX_BYTES + 1), Err("LaTeXソースが大きすぎます（上限5MB）".to_string()));
}

#[test]
fn the_log_file_is_preferred_when_it_has_text() {
    assert_eq!(compile_log("printed".into(), Some("from file".into())), "from file");
    assert_eq!(compile_log("printed".into(), Some(String::new())), "printed");
    assert_eq!(compile_log("printed".into(), None), "printed");
}

#[test]
fn latex_failures_report_their_first_error_lines() {
    let log = "This is e-upTeX\r\n! Undefined control sequence.\nl.5 \\foo\n./kyozai.tex:5: error here\n";
    assert_eq!(
        latex_error_message(log),
        "LaTeXコンパイルエラー:\n! Undefined control sequence.\n./kyozai.tex:5: error here"
    );
    let many: String = (0..10).map(|i| format!("! e{}\n", i)).collect();
    let expected: Vec<String> = (0..8).map(|i| format!("! e{}", i)).collect();
    assert_eq!(latex_error_message(&many), format!("LaTeXコンパイルエラー:\n{}", expected.join("\n")));
    assert_eq!(latex_error_message("nothing wrong here"), LATEX_FAILED);
    assert_eq!(latex_error_message(""), LATEX_FAILED);
}

#[test]
fn latex_runs_twice_before_the_pdf_is_made() {
    assert_eq!(after_latex_run(1, true, ""), LatexStep::RunAgain);
    assert_eq!(after_latex_run(2, true, ""), LatexStep::MakePdf);
    assert_eq!(after_latex_run(1, false, "x"), LatexStep::Failed(LATEX_FAILED.to_string()));
    assert_eq!(
        after_latex_run(2, false, "! Missing $ inserted."),
        LatexStep::Failed("LaTeXコンパイルエラー:\n! Missing $ inserted.".to_string())
    );
}

#[test]
fn the_pdf_is_kept_only_when_made_and_within_the_limit() {
    assert_eq!(after_pdf_run(true, true, Some(MAX_PDF_BYTES)), Ok("PDFを生成しました".to_string()));
    assert_eq!(after_pdf_run(true, true, None), Ok("PDFを生成しました".to_string()));
    assert_eq!(
        after_pdf_run(true, true, Some(MAX_PDF_BYTES + 1)),
        Err("生成PDFが安全上限（100MB）を超えました".to_string())
    );
    assert_eq!(after_pdf_run(false, true, Some(1)), Err(PDF_FAILED.to_string()));
    assert_eq!(after_pdf_run(true, false, None), Err(PDF_FAILED.to_string()));
}
