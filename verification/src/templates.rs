//! Document templates: the built-in templates, placeholder names, template
//! checks and the choice of the template that a booklet is rendered with.
use vstd::prelude::*;
use crate::latex::{MARKER_END, MARKER_START};
use crate::text::{
    chars_of, contains, contains_str, find, find_first, find_from, find_in, is_blank, is_str, push_all, push_str,
    replace_all, slice_of, split_on, string_of, trim, views,
};

verus! {

pub const DEFAULT_PROBLEM_TEMPLATE: &'static str = r#"\documentclass[uplatex,a4paper,11pt]{ujarticle}

\usepackage[dvipdfmx]{graphicx}
\usepackage{amsmath,amssymb,mathtools}
\usepackage{geometry}
\usepackage{fancyhdr}
\usepackage{titlesec}
\usepackage{ascmac}
\usepackage{multicol}
\usepackage{tcolorbox}
\tcbuselibrary{skins}
\usepackage{enumitem}
\usepackage{physics}
\usepackage{float}

\geometry{
  top=20mm,
  bottom=25mm,
  left=20mm,
  right=20mm
}

\pagestyle{fancy}
\fancyhf{}
\lhead{{{HEADER_LEFT}}}
\rhead{{{HEADER_RIGHT}}}
\cfoot{\thepage}
\setlength{\headheight}{15pt}

\newcounter{mondai}
\newcommand{\mondai}{%
  \refstepcounter{mondai}%
  \par\medskip
  \noindent\textbf{問題\themondai}\par
}

\begin{document}

\begin{center}
  {\LARGE \bfseries {{TITLE}} \par}
  \vspace{2mm}
  {\large {{SUBTITLE}} \par}
\end{center}

{{NAME_FIELD}}

{{BODY}}

\end{document}
"#;

/// Built-in answer booklet template (A4, uplatex + dvipdfmx).
pub const DEFAULT_ANSWER_TEMPLATE: &'static str = r#"\documentclass[uplatex,a4paper,11pt]{ujarticle}

\usepackage[dvipdfmx]{graphicx}
\usepackage{amsmath,amssymb,mathtools}
\usepackage{geometry}
\usepackage{fancyhdr}
\usepackage{titlesec}
\usepackage{ascmac}
\usepackage{multicol}
\usepackage{tcolorbox}
\tcbuselibrary{skins}
\usepackage{enumitem}
\usepackage{physics}
\usepackage{float}

\geometry{
  top=20mm,
  bottom=25mm,
  left=20mm,
  right=20mm
}

\pagestyle{fancy}
\fancyhf{}
\lhead{{{HEADER_LEFT}}}
\rhead{{{HEADER_RIGHT}}}
\cfoot{\thepage}
\setlength{\headheight}{15pt}

\begin{document}

\begin{center}
  {\LARGE \bfseries {{ANSWER_TITLE}} \par}
  \vspace{2mm}
  {\large {{SUBTITLE}} \par}
\end{center}

{{NAME_FIELD}}

{{ANSWER_BODY}}

\end{document}
"#;

/// The placeholder names that templates may use, each written `{{NAME}}`.
pub open spec fn known_placeholders() -> Seq<Seq<char>> {
    seq![
        "TITLE"@,
        "ANSWER_TITLE"@,
        "SUBTITLE"@,
        "TARGET"@,
        "DATE"@,
        "NAME_FIELD"@,
        "HEADER_LEFT"@,
        "HEADER_RIGHT"@,
        "BODY"@,
        "ANSWER_BODY"@,
        "EXPLANATION_BODY"@,
        "PAGE_BREAK"@,
        "TOC"@,
    ]
}

pub fn known_placeholder_names() -> (r: Vec<Vec<char>>)
    ensures
        views(r@) == known_placeholders(),
{
    let mut r: Vec<Vec<char>> = Vec::new();
    r.push(chars_of("TITLE"));
    r.push(chars_of("ANSWER_TITLE"));
    r.push(chars_of("SUBTITLE"));
    r.push(chars_of("TARGET"));
    r.push(chars_of("DATE"));
    r.push(chars_of("NAME_FIELD"));
    r.push(chars_of("HEADER_LEFT"));
    r.push(chars_of("HEADER_RIGHT"));
    r.push(chars_of("BODY"));
    r.push(chars_of("ANSWER_BODY"));
    r.push(chars_of("EXPLANATION_BODY"));
    r.push(chars_of("PAGE_BREAK"));
    r.push(chars_of("TOC"));
    assert(views(r@) =~= known_placeholders());
    r
}

/// `{{name}}`.
pub open spec fn placeholder(name: Seq<char>) -> Seq<char> {
    "{{"@ + name + "}}"@
}

pub const W_PROBLEM_EMPTY: &'static str = "問題冊子用テンプレートが空です（共通テンプレートも未設定）。";
pub const W_PROBLEM_NO_BODY: &'static str = "問題冊子テンプレートに {{BODY}} または % APP_BODY_START / % APP_BODY_END がありません。問題本文が挿入されません。";
pub const W_PROBLEM_NO_DOCUMENT: &'static str = "問題冊子テンプレートに \\begin{document} が見つかりません。";
pub const W_PROBLEM_TWICE: &'static str = "問題冊子テンプレートに {{BODY}} と % APP_BODY_START / % APP_BODY_END の両方があります。本文が二重に挿入されます。";
pub const W_ANSWER_EMPTY: &'static str = "解答冊子用テンプレートが空です（共通テンプレートも未設定）。";
pub const W_ANSWER_NO_BODY: &'static str = "解答冊子テンプレートに {{ANSWER_BODY}}（または {{BODY}} / APP_BODYマーカー）がありません。解答本文が挿入されません。";
pub const W_ANSWER_TWICE: &'static str = "解答冊子テンプレートに本文プレースホルダと % APP_BODY_START / % APP_BODY_END の両方があります。解答本文が二重に挿入されます。";

/// The template in use: `primary` unless it is blank, else `fallback`.
pub open spec fn effective(primary: Seq<char>, fallback: Seq<char>) -> Seq<char> {
    if trim(primary).len() == 0 {
        fallback
    } else {
        primary
    }
}

pub open spec fn has_markers(t: Seq<char>) -> bool {
    contains(t, MARKER_START@) && contains(t, MARKER_END@)
}

pub open spec fn when(c: bool, w: Seq<char>) -> Seq<Seq<char>> {
    if c {
        seq![w]
    } else {
        seq![]
    }
}

/// Warnings about where the bodies go in the problem and answer templates.
pub open spec fn structure_warnings(base: Seq<char>, problem: Seq<char>, answer: Seq<char>) -> Seq<Seq<char>> {
    let ep = effective(problem, base);
    let ea = effective(answer, base);
    let pw = if trim(ep).len() == 0 {
        seq![W_PROBLEM_EMPTY@]
    } else {
        when(!contains(ep, "{{BODY}}"@) && !has_markers(ep), W_PROBLEM_NO_BODY@)
            + when(!contains(ep, "\\begin{document}"@), W_PROBLEM_NO_DOCUMENT@)
            + when(contains(ep, "{{BODY}}"@) && has_markers(ep), W_PROBLEM_TWICE@)
    };
    let aw = if trim(ea).len() == 0 {
        seq![W_ANSWER_EMPTY@]
    } else if !contains(ea, "{{ANSWER_BODY}}"@) && !contains(ea, "{{BODY}}"@) && !has_markers(ea) {
        seq![W_ANSWER_NO_BODY@]
    } else {
        when((contains(ea, "{{ANSWER_BODY}}"@) || contains(ea, "{{BODY}}"@)) && has_markers(ea), W_ANSWER_TWICE@)
    };
    pw + aw
}

/// The texts between `{{` and the next `}}` in `t`, scanning from position `i`.
pub open spec fn brace_names_from(t: Seq<char>, i: int) -> Seq<Seq<char>>
    decreases t.len() - i,
{
    match find_from(t, "{{"@, i) {
        Some(p) => if i <= p && p + 2 <= t.len() {
            match find_from(t, "}}"@, p + 2) {
                Some(e) => if p + 2 <= e && e + 2 <= t.len() {
                    seq![t.subrange(p + 2, e)] + brace_names_from(t, e + 2)
                } else {
                    seq![]
                },
                None => seq![],
            }
        } else {
            seq![]
        },
        None => seq![],
    }
}

/// Upper-case ASCII letters and underscores, at least one.
pub open spec fn placeholder_like(n: Seq<char>) -> bool {
    n.len() > 0 && forall|k: int| 0 <= k < n.len() ==> (('A' <= #[trigger] n[k] && n[k] <= 'Z') || n[k] == '_')
}

pub open spec fn unknown_warning(n: Seq<char>) -> Seq<char> {
    "不明なプレースホルダ {{"@ + n + "}} があります（置換されません）。"@
}

/// `ws` with a warning for `n` added, where `n` looks like a placeholder, is no
/// known one and has not been reported yet.
pub open spec fn note_name(ws: Seq<Seq<char>>, n: Seq<char>) -> Seq<Seq<char>> {
    if placeholder_like(n) && !known_placeholders().contains(n) && !ws.contains(unknown_warning(n)) {
        ws.push(unknown_warning(n))
    } else {
        ws
    }
}

pub open spec fn note_names(ws: Seq<Seq<char>>, names: Seq<Seq<char>>) -> Seq<Seq<char>>
    decreases names.len(),
{
    if names.len() == 0 {
        ws
    } else {
        note_name(note_names(ws, names.drop_last()), names.last())
    }
}

/// All warnings of a template set, in the order the checks make them.
pub open spec fn template_warnings(base: Seq<char>, problem: Seq<char>, answer: Seq<char>) -> Seq<Seq<char>> {
    let w0 = structure_warnings(base, problem, answer);
    let w1 = note_names(w0, brace_names_from(base, 0));
    let w2 = note_names(w1, brace_names_from(problem, 0));
    note_names(w2, brace_names_from(answer, 0))
}

fn brace_names(t: &Vec<char>) -> (r: Vec<Vec<char>>)
    ensures
        views(r@) == brace_names_from(t@, 0),
{
    proof {
        reveal_strlit("{{");
        reveal_strlit("}}");
    }
    let open = chars_of("{{");
    let close = chars_of("}}");
    let mut out: Vec<Vec<char>> = Vec::new();
    let mut i: usize = 0;
    while i <= t.len()
        invariant
            i <= t.len(),
            open@ == "{{"@,
            close@ == "}}"@,
            brace_names_from(t@, 0) == views(out@) + brace_names_from(t@, i as int),
        decreases t.len() + 1 - i,
    {
        proof {
            reveal_strlit("{{");
            reveal_strlit("}}");
        }
        let p = match find_in(t, &open, i) {
            Some(p) => p,
            None => {
                assert(views(out@) + seq![] =~= views(out@));
                return out;
            },
        };
        let e = match find_in(t, &close, p + 2) {
            Some(e) => e,
            None => {
                assert(views(out@) + seq![] =~= views(out@));
                return out;
            },
        };
        let name = slice_of(t, p + 2, e);
        let ghost before = views(out@);
        out.push(name);
        assert(views(out@) =~= before.push(name@));
        assert(before + brace_names_from(t@, i as int) =~= views(out@) + brace_names_from(t@, e + 2));
        i = e + 2;
    }
    assert(false);
    out
}

fn is_placeholder_like(n: &Vec<char>) -> (b: bool)
    ensures
        b == placeholder_like(n@),
{
    if n.len() == 0 {
        return false;
    }
    let mut k: usize = 0;
    while k < n.len()
        invariant
            k <= n.len(),
            forall|j: int| 0 <= j < k ==> (('A' <= #[trigger] n@[j] && n@[j] <= 'Z') || n@[j] == '_'),
        decreases n.len() - k,
    {
        let c = n[k];
        if !(('A' <= c && c <= 'Z') || c == '_') {
            return false;
        }
        k += 1;
    }
    true
}

fn contains_seq(ws: &Vec<Vec<char>>, w: &Vec<char>) -> (b: bool)
    ensures
        b == views(ws@).contains(w@),
{
    let mut k: usize = 0;
    while k < ws.len()
        invariant
            k <= ws.len(),
            forall|j: int| 0 <= j < k ==> #[trigger] views(ws@)[j] != w@,
        decreases ws.len() - k,
    {
        if crate::text::eq_chars(&ws[k], w) {
            assert(views(ws@)[k as int] == w@);
            return true;
        }
        k += 1;
    }
    false
}

fn note_all(ws: &mut Vec<Vec<char>>, names: &Vec<Vec<char>>, known: &Vec<Vec<char>>)
    requires
        views(known@) == known_placeholders(),
    ensures
        views(final(ws)@) == note_names(views(old(ws)@), views(names@)),
{
    let ghost w0 = views(ws@);
    let mut i: usize = 0;
    while i < names.len()
        invariant
            i <= names.len(),
            views(known@) == known_placeholders(),
            views(ws@) == note_names(w0, views(names@).take(i as int)),
        decreases names.len() - i,
    {
        proof {
            assert(views(names@).take(i + 1).drop_last() =~= views(names@).take(i as int));
        }
        let n = &names[i];
        if is_placeholder_like(n) && !contains_seq(known, n) {
            let mut w: Vec<char> = Vec::new();
            push_str(&mut w, "不明なプレースホルダ {{");
            push_all(&mut w, n);
            push_str(&mut w, "}} があります（置換されません）。");
            assert(w@ =~= unknown_warning(n@));
            if !contains_seq(ws, &w) {
                let ghost before = views(ws@);
                ws.push(w);
                assert(views(ws@) =~= before.push(unknown_warning(n@)));
            }
        }
        i += 1;
    }
    assert(views(names@).take(names@.len() as int) =~= views(names@));
}

fn push_warning(ws: &mut Vec<Vec<char>>, w: &str)
    ensures
        views(final(ws)@) == views(old(ws)@).push(w@),
{
    let ghost before = views(ws@);
    ws.push(chars_of(w));
    assert(views(ws@) =~= before.push(w@));
}

fn effective_of(primary: &Vec<char>, fallback: &Vec<char>) -> (r: Vec<char>)
    ensures
        r@ == effective(primary@, fallback@),
{
    if is_blank(primary) {
        fallback.clone()
    } else {
        primary.clone()
    }
}

fn has_markers_exec(t: &Vec<char>) -> (b: bool)
    ensures
        b == has_markers(t@),
{
    contains_str(t, MARKER_START) && contains_str(t, MARKER_END)
}

/// A file shipped with a template (an image or a class file).
#[derive(Clone, Debug, Default)]
pub struct TemplateAsset {
    pub id: i64,
    pub template_id: i64,
    pub file_name: String,
    pub stored_name: String,
}

/// A template with its files and the checks of its text.
#[derive(Clone, Debug, Default)]
pub struct TemplateFull {
    pub id: i64,
    pub version: i64,
    pub name: String,
    pub description: String,
    pub base_template: String,
    pub problem_template: String,
    pub answer_template: String,
    pub compile_method: String,
    pub packages_memo: String,
    pub created_at: String,
    pub updated_at: String,
    pub assets: Vec<TemplateAsset>,
    pub warnings: Vec<String>,
}

/// Checks a template set (shared, problem, answer) and lists what would go
/// wrong when a booklet is rendered with it.
pub fn validate_templates(base: &str, problem: &str, answer: &str) -> (r: Vec<String>)
    ensures
        r@.map_values(|w: String| w@) == template_warnings(base@, problem@, answer@),
{
    let b = chars_of(base);
    let p = chars_of(problem);
    let a = chars_of(answer);
    let ep = effective_of(&p, &b);
    let ea = effective_of(&a, &b);
    let mut ws: Vec<Vec<char>> = Vec::new();
    if is_blank(&ep) {
        push_warning(&mut ws, W_PROBLEM_EMPTY);
    } else {
        let body = contains_str(&ep, "{{BODY}}");
        let marks = has_markers_exec(&ep);
        if !body && !marks {
            push_warning(&mut ws, W_PROBLEM_NO_BODY);
        }
        if !contains_str(&ep, "\\begin{document}") {
            push_warning(&mut ws, W_PROBLEM_NO_DOCUMENT);
        }
        if body && marks {
            push_warning(&mut ws, W_PROBLEM_TWICE);
        }
    }
    let ghost pw = views(ws@);
    if is_blank(&ea) {
        push_warning(&mut ws, W_ANSWER_EMPTY);
    } else {
        let ab = contains_str(&ea, "{{ANSWER_BODY}}");
        let bb = contains_str(&ea, "{{BODY}}");
        let marks = has_markers_exec(&ea);
        if !ab && !bb && !marks {
            push_warning(&mut ws, W_ANSWER_NO_BODY);
        } else if (ab || bb) && marks {
            push_warning(&mut ws, W_ANSWER_TWICE);
        }
    }
    assert(views(ws@) =~= structure_warnings(b@, p@, a@));
    let known = known_placeholder_names();
    let nb = brace_names(&b);
    note_all(&mut ws, &nb, &known);
    let np = brace_names(&p);
    note_all(&mut ws, &np, &known);
    let na = brace_names(&a);
    note_all(&mut ws, &na, &known);
    let mut out: Vec<String> = Vec::new();
    let mut k: usize = 0;
    while k < ws.len()
        invariant
            k <= ws.len(),
            out@.len() == k,
            forall|j: int| 0 <= j < k ==> #[trigger] out@[j]@ == ws@[j]@,
        decreases ws.len() - k,
    {
        out.push(string_of(&ws[k]));
        k += 1;
    }
    assert(out@.map_values(|w: String| w@) =~= views(ws@));
    out
}

pub open spec fn no_repeats(ws: Seq<Seq<char>>) -> bool {
    forall|i: int, j: int| 0 <= i < j < ws.len() ==> ws[i] != ws[j]
}

proof fn lemma_note_keeps_distinct(ws: Seq<Seq<char>>, names: Seq<Seq<char>>)
    requires
        no_repeats(ws),
    ensures
        no_repeats(note_names(ws, names)),
    decreases names.len(),
{
    if names.len() > 0 {
        lemma_note_keeps_distinct(ws, names.drop_last());
        let prev = note_names(ws, names.drop_last());
        let n = names.last();
        if placeholder_like(n) && !known_placeholders().contains(n) && !prev.contains(unknown_warning(n)) {
            let nx = prev.push(unknown_warning(n));
            assert forall|i: int, j: int| 0 <= i < j < nx.len() implies nx[i] != nx[j] by {
                if j == prev.len() {
                    assert(nx[i] == prev[i]);
                    assert(prev.contains(prev[i]));
                }
            }
        }
    }
}

/// Law: no warning about a template set is listed twice.
pub proof fn lemma_template_warnings_distinct(base: Seq<char>, problem: Seq<char>, answer: Seq<char>)
    ensures
        no_repeats(template_warnings(base, problem, answer)),
{
    reveal_strlit("問題冊子用テンプレートが空です（共通テンプレートも未設定）。");
    reveal_strlit("問題冊子テンプレートに {{BODY}} または % APP_BODY_START / % APP_BODY_END がありません。問題本文が挿入されません。");
    reveal_strlit("問題冊子テンプレートに \\begin{document} が見つかりません。");
    reveal_strlit("問題冊子テンプレートに {{BODY}} と % APP_BODY_START / % APP_BODY_END の両方があります。本文が二重に挿入されます。");
    reveal_strlit("解答冊子用テンプレートが空です（共通テンプレートも未設定）。");
    reveal_strlit("解答冊子テンプレートに {{ANSWER_BODY}}（または {{BODY}} / APP_BODYマーカー）がありません。解答本文が挿入されません。");
    reveal_strlit("解答冊子テンプレートに本文プレースホルダと % APP_BODY_START / % APP_BODY_END の両方があります。解答本文が二重に挿入されます。");
    let w = structure_warnings(base, problem, answer);
    assert(W_PROBLEM_NO_BODY@ != W_PROBLEM_TWICE@) by {
        assert(W_PROBLEM_NO_BODY@[21] != W_PROBLEM_TWICE@[21]);
    }
    assert(W_PROBLEM_NO_DOCUMENT@ != W_PROBLEM_TWICE@) by {
        assert(W_PROBLEM_NO_DOCUMENT@[12] != W_PROBLEM_TWICE@[12]);
    }
    assert(W_PROBLEM_NO_BODY@ != W_PROBLEM_NO_DOCUMENT@) by {
        assert(W_PROBLEM_NO_BODY@[12] != W_PROBLEM_NO_DOCUMENT@[12]);
    }
    let ep = effective(problem, base);
    let ea = effective(answer, base);
    let pw = if trim(ep).len() == 0 {
        seq![W_PROBLEM_EMPTY@]
    } else {
        when(!contains(ep, "{{BODY}}"@) && !has_markers(ep), W_PROBLEM_NO_BODY@)
            + when(!contains(ep, "\\begin{document}"@), W_PROBLEM_NO_DOCUMENT@)
            + when(contains(ep, "{{BODY}}"@) && has_markers(ep), W_PROBLEM_TWICE@)
    };
    let aw = if trim(ea).len() == 0 {
        seq![W_ANSWER_EMPTY@]
    } else if !contains(ea, "{{ANSWER_BODY}}"@) && !contains(ea, "{{BODY}}"@) && !has_markers(ea) {
        seq![W_ANSWER_NO_BODY@]
    } else {
        when((contains(ea, "{{ANSWER_BODY}}"@) || contains(ea, "{{BODY}}"@)) && has_markers(ea), W_ANSWER_TWICE@)
    };
    assert(w == pw + aw);
    assert(forall|i: int| 0 <= i < pw.len() ==> (#[trigger] pw[i])[0] == '問');
    assert(forall|i: int| 0 <= i < aw.len() ==> (#[trigger] aw[i])[0] == '解');
    assert(aw.len() <= 1);
    assert(no_repeats(pw));
    assert forall|i: int, j: int| 0 <= i < j < w.len() implies w[i] != w[j] by {
        if j < pw.len() {
            assert(w[i] == pw[i] && w[j] == pw[j]);
        } else if i < pw.len() {
            assert(w[i] == pw[i] && w[j] == aw[j - pw.len()]);
            assert(pw[i][0] != aw[j - pw.len()][0]);
        }
    }
    lemma_note_keeps_distinct(w, brace_names_from(base, 0));
    lemma_note_keeps_distinct(note_names(w, brace_names_from(base, 0)), brace_names_from(problem, 0));
    lemma_note_keeps_distinct(
        note_names(note_names(w, brace_names_from(base, 0)), brace_names_from(problem, 0)),
        brace_names_from(answer, 0),
    );
}

// ---------------------------------------------------------------------------
// Importing a template from an existing .tex file
// ---------------------------------------------------------------------------

/// The problem and answer templates made from an imported `.tex` file. With
/// `replace_body`, everything inside the document environment becomes `{{BODY}}`;
/// otherwise the file is taken as it is. The answer template names `{{ANSWER_BODY}}`.
pub open spec fn imported_templates(content: Seq<char>, mode: Seq<char>) -> Result<(Seq<char>, Seq<char>), Seq<char>> {
    let problem = if mode == "replace_body"@ {
        match (find(content, "\\begin{document}"@), find(content, "\\end{document}"@)) {
            (None, _) => Err("\\begin{document} が見つかりません"@),
            (_, None) => Err("\\end{document} が見つかりません"@),
            (Some(b), Some(e)) => if e < b {
                Err("\\begin{document} と \\end{document} の順序が不正です"@)
            } else {
                Ok(content.take(b + 16) + "\n\n{{BODY}}\n\n"@ + content.skip(e))
            },
        }
    } else {
        Ok(content)
    };
    match problem {
        Ok(p) => Ok((p, replace_all(p, "{{BODY}}"@, "{{ANSWER_BODY}}"@))),
        Err(m) => Err(m),
    }
}

pub fn template_from_tex(content: &str, mode: &str) -> (r: Result<(String, String), String>)
    ensures
        match imported_templates(content@, mode@) {
            Ok((p, a)) => r matches Ok(x) && x.0@ == p && x.1@ == a,
            Err(m) => r matches Err(e) && e@ == m,
        },
{
    let c = chars_of(content);
    let m = chars_of(mode);
    let problem = if is_str(&m, "replace_body") {
        let bd = chars_of("\\begin{document}");
        let ed = chars_of("\\end{document}");
        proof {
            reveal_strlit("\\begin{document}");
        }
        let fb = find_first(&c, &bd);
        let fe = find_first(&c, &ed);
        let b = match fb {
            Some(b) => b,
            None => {
                return Err(string_of(&chars_of("\\begin{document} が見つかりません")));
            },
        };
        let e = match fe {
            Some(e) => e,
            None => {
                return Err(string_of(&chars_of("\\end{document} が見つかりません")));
            },
        };
        if e < b {
            return Err(string_of(&chars_of("\\begin{document} と \\end{document} の順序が不正です")));
        }
        assert(bd@.len() == 16);
        let mut p = slice_of(&c, 0, b + 16);
        push_str(&mut p, "\n\n{{BODY}}\n\n");
        let tail = slice_of(&c, e, c.len());
        push_all(&mut p, &tail);
        assert(p@ =~= c@.take(b + 16) + "\n\n{{BODY}}\n\n"@ + c@.skip(e as int));
        p
    } else {
        c
    };
    let answer = crate::text::replace_str(&problem, "{{BODY}}", "{{ANSWER_BODY}}");
    Ok((string_of(&problem), string_of(&answer)))
}

/// The brace groups that follow each `start` command, skipping one optional
/// `[...]` argument, scanning from position `i`.
pub open spec fn groups_from(t: Seq<char>, start: Seq<char>, i: int) -> Seq<Seq<char>>
    decreases t.len() - i,
{
    match find_from(t, start, i) {
        Some(p) => if i <= p && p + start.len() <= t.len() && start.len() > 0 {
            let a = p + start.len();
            let a2 = if a < t.len() && t[a] == '[' {
                match find_from(t, "]"@, a) {
                    Some(k) => if a <= k && k < t.len() { k + 1 } else { a },
                    None => a,
                }
            } else {
                a
            };
            if a2 < t.len() && t[a2] == '{' {
                match find_from(t, "}"@, a2) {
                    Some(e) => if a2 <= e && e < t.len() {
                        seq![t.subrange(a2 + 1, e)] + groups_from(t, start, e)
                    } else {
                        groups_from(t, start, a)
                    },
                    None => groups_from(t, start, a),
                }
            } else {
                groups_from(t, start, a)
            }
        } else {
            seq![]
        },
        None => seq![],
    }
}

/// The brace groups that follow each `start_pat` in `content` (after one optional `[...]`).
pub fn extract_between(content: &Vec<char>, start_pat: &str) -> (r: Vec<Vec<char>>)
    requires
        start_pat@.len() > 0,
    ensures
        views(r@) == groups_from(content@, start_pat@, 0),
{
    let sp = chars_of(start_pat);
    let close_br = chars_of("]");
    let close = chars_of("}");
    let mut out: Vec<Vec<char>> = Vec::new();
    let mut i: usize = 0;
    while i <= content.len()
        invariant
            i <= content.len(),
            sp@ == start_pat@,
            sp@.len() > 0,
            close_br@ == "]"@,
            close@ == "}"@,
            groups_from(content@, start_pat@, 0) == views(out@) + groups_from(content@, start_pat@, i as int),
        decreases content.len() + 1 - i,
    {
        proof {
            reveal_strlit("]");
            reveal_strlit("}");
        }
        let p = match find_in(content, &sp, i) {
            Some(p) => p,
            None => {
                assert(views(out@) + seq![] =~= views(out@));
                return out;
            },
        };
        let a = p + sp.len();
        let a2 = if a < content.len() && content[a] == '[' {
            match find_in(content, &close_br, a) {
                Some(k) => k + 1,
                None => a,
            }
        } else {
            a
        };
        if a2 < content.len() && content[a2] == '{' {
            match find_in(content, &close, a2) {
                Some(e) => {
                    proof {
                        crate::text::lemma_find_from(content@, close@, a2 as int);
                        if e == a2 {
                            assert(content@.subrange(e as int, e + 1)[0] == content@[e as int]);
                        }
                    }
                    let g = slice_of(content, a2 + 1, e);
                    let ghost before = views(out@);
                    out.push(g);
                    assert(views(out@) =~= before.push(g@));
                    assert(before + groups_from(content@, start_pat@, i as int) =~= views(out@) + groups_from(content@, start_pat@, e as int));
                    i = e;
                },
                None => {
                    i = a;
                },
            }
        } else {
            i = a;
        }
    }
    out
}

/// The packages named by `\usepackage` lines, each once, in order of first use.
pub open spec fn package_names(groups: Seq<Seq<char>>) -> Seq<Seq<char>>
    decreases groups.len(),
{
    if groups.len() == 0 {
        seq![]
    } else {
        add_packages(package_names(groups.drop_last()), split_on(groups.last(), ","@))
    }
}

/// `names` with each trimmed non-empty part added where it is new.
pub open spec fn add_packages(names: Seq<Seq<char>>, parts: Seq<Seq<char>>) -> Seq<Seq<char>>
    decreases parts.len(),
{
    if parts.len() == 0 {
        names
    } else {
        let prev = add_packages(names, parts.drop_last());
        let n = trim(parts.last());
        if n.len() > 0 && !prev.contains(n) {
            prev.push(n)
        } else {
            prev
        }
    }
}

fn add_packages_exec(names: &mut Vec<Vec<char>>, parts: &Vec<Vec<char>>)
    ensures
        views(final(names)@) == add_packages(views(old(names)@), views(parts@)),
{
    let ghost n0 = views(names@);
    let mut k: usize = 0;
    while k < parts.len()
        invariant
            k <= parts.len(),
            views(names@) == add_packages(n0, views(parts@).take(k as int)),
        decreases parts.len() - k,
    {
        proof {
            assert(views(parts@).take(k + 1).drop_last() =~= views(parts@).take(k as int));
        }
        let n = crate::text::trim_of(&parts[k]);
        if n.len() > 0 && !crate::patterns::contains_seq(names, &n) {
            let ghost before = views(names@);
            names.push(n);
            assert(views(names@) =~= before.push(n@));
        }
        k += 1;
    }
    assert(views(parts@).take(parts@.len() as int) =~= views(parts@));
}

/// The packages an imported `.tex` file loads.
pub fn tex_packages(content: &Vec<char>) -> (r: Vec<Vec<char>>)
    ensures
        views(r@) == package_names(groups_from(content@, "\\usepackage"@, 0)),
{
    proof {
        reveal_strlit("\\usepackage");
        reveal_strlit(",");
    }
    let groups = extract_between(content, "\\usepackage");
    let comma = chars_of(",");
    let mut names: Vec<Vec<char>> = Vec::new();
    let mut g: usize = 0;
    while g < groups.len()
        invariant
            g <= groups.len(),
            comma@ == ","@,
            comma@.len() > 0,
            views(names@) == package_names(views(groups@).take(g as int)),
        decreases groups.len() - g,
    {
        proof {
            assert(views(groups@).take(g + 1).drop_last() =~= views(groups@).take(g as int));
        }
        let parts = crate::text::split_chars(&groups[g], &comma);
        assert(views(parts@) =~= split_on(groups@[g as int]@, ","@));
        add_packages_exec(&mut names, &parts);
        g += 1;
    }
    assert(views(groups@).take(groups@.len() as int) =~= views(groups@));
    names
}

/// The texts inside the braces that follow each `pat` in `t`, scanning from
/// position `i`: the first `{` after the command opens the group and the next
/// `}` closes it.
pub open spec fn refs_from(t: Seq<char>, pat: Seq<char>, i: int) -> Seq<Seq<char>>
    decreases t.len() - i,
{
    match find_from(t, pat, i) {
        Some(p) => if i <= p && p + pat.len() <= t.len() && pat.len() > 0 {
            let skip = p + pat.len();
            match find_from(t, "{"@, p) {
                Some(o) => if p <= o < t.len() {
                    match find_from(t, "}"@, o + 1) {
                        Some(c) => if o + 1 <= c < t.len() {
                            seq![t.subrange(o + 1, c)] + refs_from(t, pat, c)
                        } else {
                            refs_from(t, pat, skip)
                        },
                        None => refs_from(t, pat, skip),
                    }
                } else {
                    refs_from(t, pat, skip)
                },
                None => refs_from(t, pat, skip),
            }
        } else {
            seq![]
        },
        None => seq![],
    }
}

/// The names of the files that an imported `.tex` file brings in: those of
/// `\includegraphics`, then `\input{`, then `\include{`.
pub open spec fn raw_references(t: Seq<char>) -> Seq<Seq<char>> {
    refs_from(t, "\\includegraphics"@, 0) + refs_from(t, "\\input{"@, 0) + refs_from(t, "\\include{"@, 0)
}

/// The names kept: trimmed, not empty, and not a placeholder such as `{{LOGO}}`.
pub open spec fn kept_references(raw: Seq<Seq<char>>) -> Seq<Seq<char>>
    decreases raw.len(),
{
    if raw.len() == 0 {
        seq![]
    } else {
        let n = trim(raw.last());
        let rest = kept_references(raw.drop_last());
        if n.len() > 0 && !contains(n, "{{"@) {
            rest.push(n)
        } else {
            rest
        }
    }
}

fn refs_exec(t: &Vec<char>, pat: &str) -> (r: Vec<Vec<char>>)
    requires
        pat@.len() > 0,
    ensures
        views(r@) == refs_from(t@, pat@, 0),
{
    let pt = chars_of(pat);
    let open = chars_of("{");
    let close = chars_of("}");
    let mut out: Vec<Vec<char>> = Vec::new();
    let mut i: usize = 0;
    while i <= t.len()
        invariant
            i <= t.len(),
            pt@ == pat@,
            pt@.len() > 0,
            open@ == "{"@,
            close@ == "}"@,
            refs_from(t@, pat@, 0) == views(out@) + refs_from(t@, pat@, i as int),
        decreases t.len() + 1 - i,
    {
        let p = match find_in(t, &pt, i) {
            Some(p) => p,
            None => {
                assert(views(out@) + seq![] =~= views(out@));
                return out;
            },
        };
        let skip = p + pt.len();
        let next = match find_in(t, &open, p) {
            Some(o) => {
                proof {
                    reveal_strlit("{");
                }
                if o + 1 <= t.len() {
                    match find_in(t, &close, o + 1) {
                        Some(c) => {
                            proof {
                                reveal_strlit("}");
                            }
                            let g = slice_of(t, o + 1, c);
                            let ghost before = views(out@);
                            out.push(g);
                            assert(views(out@) =~= before.push(g@));
                            assert(before + refs_from(t@, pat@, i as int) =~= views(out@) + refs_from(t@, pat@, c as int));
                            c
                        },
                        None => skip,
                    }
                } else {
                    skip
                }
            },
            None => skip,
        };
        i = next;
    }
    out
}

/// The names of the files that an imported `.tex` file brings in, in the order
/// they are looked for beside it.
pub fn referenced_names(content: &str) -> (r: Vec<String>)
    ensures
        r@.map_values(|s: String| s@) == kept_references(raw_references(content@)),
{
    proof {
        reveal_strlit("\\includegraphics");
        reveal_strlit("\\input{");
        reveal_strlit("\\include{");
    }
    let t = chars_of(content);
    let mut raw = refs_exec(&t, "\\includegraphics");
    let b = refs_exec(&t, "\\input{");
    let c = refs_exec(&t, "\\include{");
    let mut k: usize = 0;
    let ghost a0 = views(raw@);
    while k < b.len()
        invariant
            k <= b.len(),
            views(raw@) == a0 + views(b@).take(k as int),
        decreases b.len() - k,
    {
        let ghost before = views(raw@);
        let g = crate::text::slice_of(&b[k], 0, b[k].len());
        assert(g@ =~= b@[k as int]@);
        raw.push(g);
        assert(views(raw@) =~= before.push(g@));
        assert(views(raw@) =~= a0 + views(b@).take(k + 1));
        k += 1;
    }
    k = 0;
    let ghost a1 = views(raw@);
    while k < c.len()
        invariant
            k <= c.len(),
            views(raw@) == a1 + views(c@).take(k as int),
        decreases c.len() - k,
    {
        let ghost before = views(raw@);
        let g = crate::text::slice_of(&c[k], 0, c[k].len());
        assert(g@ =~= c@[k as int]@);
        raw.push(g);
        assert(views(raw@) =~= before.push(g@));
        assert(views(raw@) =~= a1 + views(c@).take(k + 1));
        k += 1;
    }
    assert(views(b@).take(b@.len() as int) =~= views(b@));
    assert(views(c@).take(c@.len() as int) =~= views(c@));
    assert(views(raw@) == raw_references(content@));
    let dbl = chars_of("{{");
    let mut out: Vec<String> = Vec::new();
    let mut j: usize = 0;
    while j < raw.len()
        invariant
            j <= raw.len(),
            dbl@ == "{{"@,
            out@.map_values(|s: String| s@) == kept_references(views(raw@).take(j as int)),
        decreases raw.len() - j,
    {
        proof {
            assert(views(raw@).take(j + 1).drop_last() =~= views(raw@).take(j as int));
        }
        let n = crate::text::trim_of(&raw[j]);
        if n.len() > 0 && !crate::text::contains_chars(&n, &dbl) {
            let ghost before = out@.map_values(|s: String| s@);
            out.push(string_of(&n));
            assert(out@.map_values(|s: String| s@) =~= before.push(n@));
        }
        j += 1;
    }
    assert(views(raw@).take(raw@.len() as int) =~= views(raw@));
    out
}

/// What an imported `.tex` file holds, as the import wizard shows it.
pub struct ImportAnalysis {
    pub doc_class: String,
    pub packages: Vec<String>,
    pub has_body_placeholder: bool,
    pub has_markers: bool,
    pub has_document_env: bool,
    pub referenced_files: Vec<String>,
    pub content: String,
}

/// The document class: the first `\documentclass` group, or nothing.
pub open spec fn doc_class_of(t: Seq<char>) -> Seq<char> {
    let g = groups_from(t, "\\documentclass"@, 0);
    if g.len() > 0 { g[0] } else { seq![] }
}

/// Reads an imported `.tex` file's text; `referenced_files` are the names of
/// the referenced files that were found beside it.
pub fn analyze_tex_file(content: String, referenced_files: Vec<String>) -> (r: ImportAnalysis)
    ensures
        r.doc_class@ == doc_class_of(content@),
        r.packages@.map_values(|s: String| s@) == package_names(groups_from(content@, "\\usepackage"@, 0)),
        r.has_body_placeholder == (contains(content@, "{{BODY}}"@) || contains(content@, "{{ANSWER_BODY}}"@)),
        r.has_markers == has_markers(content@),
        r.has_document_env == (contains(content@, "\\begin{document}"@) && contains(content@, "\\end{document}"@)),
        r.referenced_files@ == referenced_files@,
        r.content@ == content@,
{
    proof {
        reveal_strlit("\\documentclass");
    }
    let t = chars_of(content.as_str());
    let classes = extract_between(&t, "\\documentclass");
    let doc_class = if classes.len() > 0 {
        string_of(&classes[0])
    } else {
        string_of(&Vec::new())
    };
    let names = tex_packages(&t);
    let mut packages: Vec<String> = Vec::new();
    let mut k: usize = 0;
    while k < names.len()
        invariant
            k <= names.len(),
            packages@.map_values(|s: String| s@) == views(names@).take(k as int),
        decreases names.len() - k,
    {
        let ghost before = packages@.map_values(|s: String| s@);
        packages.push(string_of(&names[k]));
        assert(packages@.map_values(|s: String| s@) =~= before.push(names@[k as int]@));
        assert(packages@.map_values(|s: String| s@) =~= views(names@).take(k + 1));
        k += 1;
    }
    assert(views(names@).take(names@.len() as int) =~= views(names@));
    let has_body_placeholder = contains_str(&t, "{{BODY}}") || contains_str(&t, "{{ANSWER_BODY}}");
    let has_document_env = contains_str(&t, "\\begin{document}") && contains_str(&t, "\\end{document}");
    let markers = has_markers_exec(&t);
    ImportAnalysis {
        doc_class,
        packages,
        has_body_placeholder,
        has_markers: markers,
        has_document_env,
        referenced_files,
        content,
    }
}

/// The files of a template in order of their ids.
pub open spec fn assets_by_id(a: Seq<TemplateAsset>) -> bool {
    forall|i: int, j: int| 0 <= i < j < a.len() ==> a[i].id <= a[j].id
}

/// The template's files sorted by id: the same files, in order of their ids.
fn sort_assets(assets: Vec<TemplateAsset>) -> (r: Vec<TemplateAsset>)
    ensures
        assets_by_id(r@),
        r@.to_multiset() == assets@.to_multiset(),
{
    broadcast use vstd::seq_lib::group_to_multiset_ensures, vstd::multiset::group_multiset_axioms;
    let ghost a0 = assets@;
    let mut rest = assets;
    let mut out: Vec<TemplateAsset> = Vec::new();
    assert(rest@ =~= a0);
    while rest.len() > 0
        invariant
            assets_by_id(out@),
            out@.to_multiset().add(rest@.to_multiset()) == a0.to_multiset(),
        decreases rest.len(),
    {
        let ghost r0 = rest@;
        let a = rest.remove(0);
        proof {
            vstd::seq_lib::to_multiset_remove(r0, 0);
            assert(a == r0[0]);
            assert(r0.contains(a));
            vstd::seq_lib::to_multiset_contains(r0, a);
            assert(r0.to_multiset().count(a) > 0);
            assert(rest@ == r0.remove(0));
        }
        let mut p: usize = 0;
        while p < out.len() && out[p].id <= a.id
            invariant
                p <= out.len(),
                forall|j: int| 0 <= j < p ==> out@[j].id <= a.id,
            decreases out.len() - p,
        {
            p += 1;
        }
        let ghost o0 = out@;
        out.insert(p, a);
        proof {
            vstd::seq_lib::to_multiset_insert(o0, p as int, a);
            assert forall|i: int, j: int| 0 <= i < j < out@.len() implies out@[i].id <= out@[j].id by {
                if j < p {
                    assert(out@[i] == o0[i] && out@[j] == o0[j]);
                } else if j == p {
                    assert(out@[i] == o0[i]);
                } else if i < p {
                    assert(out@[i] == o0[i] && out@[j] == o0[j - 1]);
                    if p < o0.len() {
                        assert(o0[p as int].id > a.id);
                    }
                } else if i == p {
                    assert(out@[j] == o0[j - 1]);
                    assert(o0[p as int].id > a.id);
                    assert(o0[p as int].id <= o0[j - 1].id || p == j - 1);
                } else {
                    assert(out@[i] == o0[i - 1] && out@[j] == o0[j - 1]);
                }
            }
            assert(out@ == o0.insert(p as int, a));
            assert(out@.to_multiset() == o0.to_multiset().insert(a));
            assert(rest@.to_multiset() == r0.to_multiset().remove(a));
            assert(out@.to_multiset().add(rest@.to_multiset()) =~= o0.to_multiset().add(r0.to_multiset()));
        }
    }
    assert(rest@.to_multiset() =~= vstd::multiset::Multiset::empty());
    assert(out@.to_multiset() =~= out@.to_multiset().add(rest@.to_multiset()));
    out
}

/// A template as it is shown: the stored template with its files in order of
/// their ids and the warnings of its text; a template the store did not find
/// is refused with the store's error.
pub fn get_template(stored: Result<TemplateFull, String>, assets: Vec<TemplateAsset>) -> (r: Result<TemplateFull, String>)
    ensures
        match stored {
            Err(e) => r matches Err(x) && x@ == e@,
            Ok(t) => r matches Ok(v) && {
                &&& v.id == t.id
                &&& v.version == t.version
                &&& v.name == t.name
                &&& v.description == t.description
                &&& v.base_template == t.base_template
                &&& v.problem_template == t.problem_template
                &&& v.answer_template == t.answer_template
                &&& v.compile_method == t.compile_method
                &&& v.packages_memo == t.packages_memo
                &&& v.created_at == t.created_at
                &&& v.updated_at == t.updated_at
                &&& assets_by_id(v.assets@)
                &&& v.assets@.to_multiset() == assets@.to_multiset()
                &&& v.warnings@.map_values(|w: String| w@) == template_warnings(
                    t.base_template@,
                    t.problem_template@,
                    t.answer_template@,
                )
            },
        },
{
    match stored {
        Err(e) => Err(e),
        Ok(t) => {
            let warnings = validate_templates(
                t.base_template.as_str(),
                t.problem_template.as_str(),
                t.answer_template.as_str(),
            );
            let sorted = sort_assets(assets);
            Ok(TemplateFull { assets: sorted, warnings, ..t })
        },
    }
}


/// The name a new template is stored under: the trimmed name, or
/// `新しいテンプレート` where it is blank.
pub open spec fn new_template_name(name: Seq<char>) -> Seq<char> {
    if trim(name).len() == 0 { "新しいテンプレート"@ } else { trim(name) }
}

pub fn template_name(name: &str) -> (r: String)
    ensures
        r@ == new_template_name(name@),
{
    let t = crate::text::trim_of(&chars_of(name));
    if t.len() == 0 {
        string_of(&chars_of("新しいテンプレート"))
    } else {
        string_of(&t)
    }
}


/// The name of a template imported from a file: the given name trimmed, else
/// the file's stem, else a generic name.
pub open spec fn imported_name(name: Seq<char>, file_stem: Option<Seq<char>>) -> Seq<char> {
    if trim(name).len() > 0 {
        trim(name)
    } else {
        match file_stem {
            Some(stem) => stem,
            None => "取り込みテンプレート"@,
        }
    }
}

pub fn imported_template_name(name: &str, file_stem: Option<String>) -> (r: String)
    ensures
        r@ == imported_name(name@, match file_stem {
            Some(s) => Some(s@),
            None => None,
        }),
{
    let t = crate::text::trim_of(&chars_of(name));
    if t.len() > 0 {
        string_of(&t)
    } else {
        match file_stem {
            Some(stem) => stem,
            None => string_of(&chars_of("取り込みテンプレート")),
        }
    }
}

} // verus!
