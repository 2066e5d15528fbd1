//! Compiling a booklet to PDF: the limits and the decisions between the runs
//! of `uplatex` and `dvipdfmx`. The caller runs the programs and reports back.
use vstd::prelude::*;
use crate::text::{chars_of, contains, decimal, decimal_of, has_prefix, join, join_chars, lines, push_all,
    push_str, string_of, views};

verus! {

/// The largest LaTeX source compiled, in bytes.
pub const MAX_TEX_BYTES: usize = 5 * 1024 * 1024;
/// The largest PDF kept, in bytes.
pub const MAX_PDF_BYTES: u64 = 100 * 1024 * 1024;
/// How many times `uplatex` runs, so that contents and references settle.
pub const LATEX_RUNS: u8 = 2;
/// How many error lines a failed compile reports.
pub const MAX_ERROR_LINES: usize = 8;

pub const LATEX_FAILED: &'static str = "uplatex でエラーが発生しました。ログを確認してください。";
pub const LATEX_ERROR_HEAD: &'static str = "LaTeXコンパイルエラー:\n";
pub const PDF_FAILED: &'static str = "dvipdfmx でPDF生成に失敗しました。ログを確認してください。";
pub const PDF_DONE: &'static str = "PDFを生成しました";

/// Why a LaTeX source of `len` bytes is not compiled, if it is not.
pub open spec fn tex_size_refusal(len: nat) -> Option<Seq<char>> {
    if len > MAX_TEX_BYTES {
        Some("LaTeXソースが大きすぎます（上限"@ + decimal((MAX_TEX_BYTES / 1024 / 1024) as nat) + "MB）"@)
    } else {
        None
    }
}

/// Refuses a LaTeX source of `byte_len` bytes that is over the limit.
pub fn check_tex_size(byte_len: usize) -> (r: Result<(), String>)
    ensures
        match tex_size_refusal(byte_len as nat) {
            Some(m) => r matches Err(e) && e@ == m,
            None => r is Ok,
        },
{
    if byte_len > MAX_TEX_BYTES {
        let mut m = chars_of("LaTeXソースが大きすぎます（上限");
        let n = decimal_of((MAX_TEX_BYTES / 1024 / 1024) as u64);
        push_all(&mut m, &n);
        push_str(&mut m, "MB）");
        return Err(string_of(&m));
    }
    Ok(())
}

/// The log a run is judged by: the log file where it has something, else
/// what the program printed.
pub open spec fn run_log(printed: Seq<char>, log_file: Option<Seq<char>>) -> Seq<char> {
    match log_file {
        Some(l) => if l.len() > 0 { l } else { printed },
        None => printed,
    }
}

pub fn compile_log(printed: String, log_file: Option<String>) -> (r: String)
    ensures
        r@ == run_log(printed@, match log_file {
            Some(l) => Some(l@),
            None => None,
        }),
{
    match log_file {
        Some(l) => {
            let c = chars_of(l.as_str());
            if c.len() > 0 { l } else { printed }
        },
        None => printed,
    }
}

/// A line of a LaTeX log that reports an error.
pub open spec fn is_error_line(l: Seq<char>) -> bool {
    has_prefix(l, "!"@) || contains(l, ".tex:"@)
}

/// The error lines among `ls`, in order.
pub open spec fn error_lines(ls: Seq<Seq<char>>) -> Seq<Seq<char>>
    decreases ls.len(),
{
    if ls.len() == 0 {
        seq![]
    } else {
        let rest = error_lines(ls.drop_last());
        if is_error_line(ls.last()) { rest.push(ls.last()) } else { rest }
    }
}

/// At most the first `MAX_ERROR_LINES` of `e`.
pub open spec fn first_errors(e: Seq<Seq<char>>) -> Seq<Seq<char>> {
    if e.len() <= MAX_ERROR_LINES { e } else { e.take(MAX_ERROR_LINES as int) }
}

/// What a failed `uplatex` run reports: its first error lines, or a general
/// message where the log has none.
pub open spec fn latex_failure(log: Seq<char>) -> Seq<char> {
    let e = first_errors(error_lines(lines(log)));
    if e.len() == 0 {
        LATEX_FAILED@
    } else {
        LATEX_ERROR_HEAD@ + join(e, "\n"@)
    }
}

pub fn latex_error_message(log: &str) -> (r: String)
    ensures
        r@ == latex_failure(log@),
{
    let ls = crate::text::lines_of(&chars_of(log));
    let bang = chars_of("!");
    let tex = chars_of(".tex:");
    let mut out: Vec<Vec<char>> = Vec::new();
    let mut i: usize = 0;
    let ghost all = lines(log@);
    assert(views(ls@) =~= all);
    while i < ls.len()
        invariant
            i <= ls.len(),
            views(ls@) == all,
            bang@ == "!"@,
            tex@ == ".tex:"@,
            views(out@) == first_errors(error_lines(all.take(i as int))),
        decreases ls.len() - i,
    {
        proof {
            assert(all.take(i + 1).drop_last() =~= all.take(i as int));
            assert(ls@[i as int]@ == all[i as int]);
        }
        let l = &ls[i];
        if crate::text::starts_with(l, &bang) || crate::text::contains_chars(l, &tex) {
            let ghost e = error_lines(all.take(i as int));
            if out.len() < MAX_ERROR_LINES {
                let ghost before = views(out@);
                let g = crate::text::slice_of(l, 0, l.len());
                assert(g@ =~= l@);
                out.push(g);
                assert(views(out@) =~= before.push(all[i as int]));
            } else {
                assert(e.push(all[i as int]).take(MAX_ERROR_LINES as int) =~= e.take(MAX_ERROR_LINES as int));
            }
        }
        i += 1;
    }
    assert(all.take(ls.len() as int) =~= all);
    if out.len() == 0 {
        string_of(&chars_of(LATEX_FAILED))
    } else {
        let mut m = chars_of(LATEX_ERROR_HEAD);
        let nl = chars_of("\n");
        let body = join_chars(&out, &nl);
        push_all(&mut m, &body);
        string_of(&m)
    }
}

/// What comes after a run of `uplatex`.
#[derive(Clone, Debug, PartialEq, Eq)]
pub enum LatexStep {
    /// Run `uplatex` once more.
    RunAgain,
    /// Go on to `dvipdfmx`.
    MakePdf,
    /// Stop: the compile failed, with this message.
    Failed(String),
}

/// The step after `uplatex` has run `runs_done` times, the last with `success`
/// and `log` (the log that `compile_log` chose).
pub fn after_latex_run(runs_done: u8, success: bool, log: &str) -> (r: LatexStep)
    ensures
        !success ==> (r matches LatexStep::Failed(m) && m@ == latex_failure(log@)),
        success && runs_done < LATEX_RUNS ==> r == LatexStep::RunAgain,
        success && runs_done >= LATEX_RUNS ==> r == LatexStep::MakePdf,
{
    if !success {
        LatexStep::Failed(latex_error_message(log))
    } else if runs_done < LATEX_RUNS {
        LatexStep::RunAgain
    } else {
        LatexStep::MakePdf
    }
}

/// Why the PDF that `dvipdfmx` made is not kept, if it is not: the run failed
/// or left no PDF, or the PDF is over the limit. An unreadable size counts as
/// within the limit.
pub open spec fn pdf_refusal(success: bool, pdf_exists: bool, pdf_bytes: Option<u64>) -> Option<Seq<char>> {
    if !success || !pdf_exists {
        Some(PDF_FAILED@)
    } else if pdf_bytes matches Some(b) && b > MAX_PDF_BYTES {
        Some("生成PDFが安全上限（"@ + decimal((MAX_PDF_BYTES / 1024 / 1024) as nat) + "MB）を超えました"@)
    } else {
        None
    }
}

/// Judges the run of `dvipdfmx`: the message of a compile that is done, or
/// why it failed.
pub fn after_pdf_run(success: bool, pdf_exists: bool, pdf_bytes: Option<u64>) -> (r: Result<String, String>)
    ensures
        match pdf_refusal(success, pdf_exists, pdf_bytes) {
            Some(m) => r matches Err(e) && e@ == m,
            None => r matches Ok(d) && d@ == PDF_DONE@,
        },
{
    if !success || !pdf_exists {
        return Err(string_of(&chars_of(PDF_FAILED)));
    }
    if let Some(b) = pdf_bytes {
        if b > MAX_PDF_BYTES {
            let mut m = chars_of("生成PDFが安全上限（");
            let n = decimal_of(MAX_PDF_BYTES / 1024 / 1024);
            push_all(&mut m, &n);
            push_str(&mut m, "MB）を超えました");
            return Err(string_of(&m));
        }
    }
    Ok(string_of(&chars_of(PDF_DONE)))
}

} // verus!
