//! Assembling LaTeX documents: escaping, problem and answer bodies, template filling.
use vstd::prelude::*;
use crate::models::{ProjectItem, ProjectSettings, SnapAttachment};
use crate::templates::{
    effective, known_placeholder_names, known_placeholders, placeholder, DEFAULT_ANSWER_TEMPLATE,
    DEFAULT_PROBLEM_TEMPLATE,
};
use crate::text::{
    decimal, decimal_of, is_blank, split_chars, split_on, join, join_chars, replace_all, replace_chars, views,
    chars_of, contains, contains_str, ends_with_str, find, find_first, find_from, find_in, has_prefix, has_suffix, is_str,
    push_all, push_str, slice_of, starts_with_str, string_of, trim, trim_end, trim_end_of, trim_of,
    trim_start, trim_start_of,
};

verus! {

/// Opening of a ruled two-column block.
pub const TWO_COL_BEGIN: &'static str = "{\\setlength{\\columnseprule}{0.4pt}%\n\\begin{multicols}{2}\n";

/// What `escape_latex` writes for one character.
pub open spec fn escape_char(c: char) -> Seq<char> {
    if c == '\\' {
        "\\textbackslash{}"@
    } else if c == '#' {
        "\\#"@
    } else if c == '$' {
        "\\$"@
    } else if c == '%' {
        "\\%"@
    } else if c == '&' {
        "\\&"@
    } else if c == '_' {
        "\\_"@
    } else if c == '{' {
        "\\{"@
    } else if c == '}' {
        "\\}"@
    } else if c == '~' {
        "\\textasciitilde{}"@
    } else if c == '^' {
        "\\textasciicircum{}"@
    } else {
        seq![c]
    }
}

/// `s` with every LaTeX special character escaped.
pub open spec fn escape_seq(s: Seq<char>) -> Seq<char>
    decreases s.len(),
{
    if s.len() == 0 {
        seq![]
    } else {
        escape_seq(s.drop_last()) + escape_char(s.last())
    }
}

fn push_escaped(out: &mut Vec<char>, c: char)
    ensures
        final(out)@ == old(out)@ + escape_char(c),
{
    if c == '\\' {
        push_str(out, "\\textbackslash{}");
    } else if c == '#' {
        push_str(out, "\\#");
    } else if c == '$' {
        push_str(out, "\\$");
    } else if c == '%' {
        push_str(out, "\\%");
    } else if c == '&' {
        push_str(out, "\\&");
    } else if c == '_' {
        push_str(out, "\\_");
    } else if c == '{' {
        push_str(out, "\\{");
    } else if c == '}' {
        push_str(out, "\\}");
    } else if c == '~' {
        push_str(out, "\\textasciitilde{}");
    } else if c == '^' {
        push_str(out, "\\textasciicircum{}");
    } else {
        out.push(c);
        assert(final(out)@ =~= old(out)@ + seq![c]);
    }
}

pub fn escape_chars(v: &Vec<char>) -> (r: Vec<char>)
    ensures
        r@ == escape_seq(v@),
{
    let mut out: Vec<char> = Vec::new();
    let mut i: usize = 0;
    while i < v.len()
        invariant
            i <= v.len(),
            out@ == escape_seq(v@.take(i as int)),
        decreases v.len() - i,
    {
        proof {
            assert(v@.take(i + 1).drop_last() =~= v@.take(i as int));
        }
        push_escaped(&mut out, v[i]);
        i += 1;
    }
    assert(v@.take(v.len() as int) =~= v@);
    out
}

/// Escapes LaTeX special characters in a plain field such as a title.
pub fn escape_latex(s: &str) -> (r: String)
    ensures
        r@ == escape_seq(s@),
{
    let v = chars_of(s);
    let e = escape_chars(&v);
    string_of(&e)
}

// ---------------------------------------------------------------------------
// File names
// ---------------------------------------------------------------------------

pub open spec fn is_unsafe_file_char(c: char) -> bool {
    c == '\\' || c == '/' || c == ':' || c == '*' || c == '?' || c == '"' || c == '<' || c == '>'
        || c == '|'
}

/// Characters that file systems refuse, replaced by `_`.
pub open spec fn file_safe(s: Seq<char>) -> Seq<char> {
    s.map_values(|c: char| if is_unsafe_file_char(c) { '_' } else { c })
}

/// A file name for a document: unsafe characters replaced, trimmed, and a
/// fixed name where nothing is left.
pub open spec fn sanitized_name(s: Seq<char>) -> Seq<char> {
    let t = trim(file_safe(s));
    if t.len() == 0 {
        "教材"@
    } else {
        t
    }
}

pub fn sanitize_filename(s: &str) -> (r: String)
    ensures
        r@ == sanitized_name(s@),
{
    let v = chars_of(s);
    let mut out: Vec<char> = Vec::new();
    let mut i: usize = 0;
    while i < v.len()
        invariant
            i <= v.len(),
            out@ == file_safe(v@.take(i as int)),
        decreases v.len() - i,
    {
        let c = v[i];
        if c == '\\' || c == '/' || c == ':' || c == '*' || c == '?' || c == '"' || c == '<' || c == '>'
            || c == '|' {
            out.push('_');
        } else {
            out.push(c);
        }
        assert(out@ =~= file_safe(v@.take(i + 1)));
        i += 1;
    }
    assert(v@.take(v.len() as int) =~= v@);
    let t = trim_of(&out);
    if t.len() == 0 {
        let mut d: Vec<char> = Vec::new();
        push_str(&mut d, "教材");
        string_of(&d)
    } else {
        string_of(&t)
    }
}

/// The word that names a booklet kind in file names.
pub open spec fn booklet_suffix_spec(kind: Seq<char>) -> Seq<char> {
    if kind == "answers"@ {
        "解答"@
    } else if kind == "combined"@ {
        "合本"@
    } else {
        "問題"@
    }
}

pub fn booklet_suffix(kind: &str) -> (r: &'static str)
    ensures
        r@ == booklet_suffix_spec(kind@),
{
    let k = chars_of(kind);
    if is_str(&k, "answers") {
        "解答"
    } else if is_str(&k, "combined") {
        "合本"
    } else {
        "問題"
    }
}

// ---------------------------------------------------------------------------
// Problem heads and boxed statements
// ---------------------------------------------------------------------------

/// `s` without a leading `p` and the white space after it, where `s` starts with `p`.
pub open spec fn strip_lead(s: Seq<char>, p: Seq<char>) -> Seq<char> {
    if has_prefix(s, p) {
        trim_start(s.skip(p.len() as int))
    } else {
        s
    }
}

/// `s` without a trailing `p` and the white space before it, where `s` ends with `p`.
pub open spec fn strip_trail(s: Seq<char>, p: Seq<char>) -> Seq<char> {
    if has_suffix(s, p) {
        trim_end(s.take(s.len() - p.len()))
    } else {
        s
    }
}

/// The title part of a problem head: its paragraph and indentation commands removed.
pub open spec fn head_title(head: Seq<char>) -> Seq<char> {
    strip_trail(strip_lead(strip_lead(trim(head), "\\par\\medskip"@), "\\noindent"@), "\\par"@)
}

fn strip_lead_exec(v: Vec<char>, p: &str) -> (r: Vec<char>)
    ensures
        r@ == strip_lead(v@, p@),
{
    if starts_with_str(&v, p) {
        let pl = chars_of(p);
        let rest = slice_of(&v, pl.len(), v.len());
        assert(rest@ =~= v@.skip(p@.len() as int));
        trim_start_of(&rest)
    } else {
        v
    }
}

fn strip_trail_exec(v: Vec<char>, p: &str) -> (r: Vec<char>)
    ensures
        r@ == strip_trail(v@, p@),
{
    if ends_with_str(&v, p) {
        let pl = chars_of(p);
        let rest = slice_of(&v, 0, v.len() - pl.len());
        assert(rest@ =~= v@.take(v@.len() - p@.len()));
        trim_end_of(&rest)
    } else {
        v
    }
}

pub fn problem_head_title_tex(head: &Vec<char>) -> (r: Vec<char>)
    ensures
        r@ == head_title(head@),
{
    let t = trim_of(head);
    let t = strip_lead_exec(t, "\\par\\medskip");
    let t = strip_lead_exec(t, "\\noindent");
    strip_trail_exec(t, "\\par")
}

/// Opening options of the framed statement box, up to the optional title.
pub const BOX_OPEN: &'static str = "\\par\\medskip\n\\begin{tcolorbox}[enhanced,width=\\linewidth,colback=white,colframe=black,coltitle=black,colbacktitle=white,fonttitle=\\bfseries,boxrule=0.65pt,arc=0pt,outer arc=0pt,boxsep=0pt,left=6pt,right=6pt,top=7pt,bottom=5pt,before skip=0pt,after skip=0.5em,attach boxed title to top left={xshift=4mm,yshift*=-\\tcboxedtitleheight/2},boxed title style={colback=white,colframe=white,boxrule=0pt,arc=0pt,outer arc=0pt,boxsep=0pt,left=2pt,right=2pt,top=0pt,bottom=0pt}";

/// A problem statement in a titled frame, for answer booklets.
pub open spec fn statement_box(head: Seq<char>, statement: Seq<char>) -> Seq<char> {
    let title = head_title(head);
    let title_option = if title.len() == 0 {
        seq![]
    } else {
        ",title={"@ + title + "}"@
    };
    BOX_OPEN@ + title_option + "]\n"@ + statement + "\n\\end{tcolorbox}\n"@
}

pub fn answer_statement_box_tex(head: &Vec<char>, statement: &Vec<char>) -> (r: Vec<char>)
    ensures
        r@ == statement_box(head@, statement@),
{
    let title = problem_head_title_tex(head);
    let mut out: Vec<char> = Vec::new();
    push_str(&mut out, BOX_OPEN);
    if title.len() > 0 {
        push_str(&mut out, ",title={");
        push_all(&mut out, &title);
        push_str(&mut out, "}");
    }
    push_str(&mut out, "]\n");
    push_all(&mut out, statement);
    push_str(&mut out, "\n\\end{tcolorbox}\n");
    assert(out@ =~= statement_box(head@, statement@));
    out
}

/// The document with the tcolorbox package (and its skins library, where asked)
/// loaded before `\begin{document}`, where a box needs them and they are missing.
pub open spec fn with_tcolorbox(doc: Seq<char>, needs: bool, needs_skins: bool) -> Seq<char> {
    if !needs {
        doc
    } else {
        let has_box = contains(doc, "\\usepackage{tcolorbox}"@);
        let has_skins = contains(doc, "\\tcbuselibrary"@) && contains(doc, "skins"@);
        let ins = (if !has_box { "\\usepackage{tcolorbox}\n"@ } else { seq![] }) + (if needs_skins
            && !has_skins { "\\tcbuselibrary{skins}\n"@ } else { seq![] });
        if ins.len() == 0 {
            doc
        } else {
            match find(doc, "\\begin{document}"@) {
                Some(p) => doc.take(p) + ins + doc.skip(p),
                None => doc,
            }
        }
    }
}

pub fn ensure_tcolorbox_support(doc: Vec<char>, needs_tcolorbox: bool, needs_skins: bool) -> (r: Vec<char>)
    ensures
        r@ == with_tcolorbox(doc@, needs_tcolorbox, needs_skins),
{
    if !needs_tcolorbox {
        return doc;
    }
    let has_box = contains_str(&doc, "\\usepackage{tcolorbox}");
    let has_skins = contains_str(&doc, "\\tcbuselibrary") && contains_str(&doc, "skins");
    let mut ins: Vec<char> = Vec::new();
    if !has_box {
        push_str(&mut ins, "\\usepackage{tcolorbox}\n");
    }
    if needs_skins && !has_skins {
        push_str(&mut ins, "\\tcbuselibrary{skins}\n");
    }
    assert(ins@ =~= (if !has_box { "\\usepackage{tcolorbox}\n"@ } else { seq![] }) + (if needs_skins
        && !has_skins { "\\tcbuselibrary{skins}\n"@ } else { seq![] }));
    if ins.len() == 0 {
        return doc;
    }
    let b = chars_of("\\begin{document}");
    match find_first(&doc, &b) {
        Some(p) => {
            let mut out = slice_of(&doc, 0, p);
            push_all(&mut out, &ins);
            let tail = slice_of(&doc, p, doc.len());
            push_all(&mut out, &tail);
            assert(out@ =~= doc@.take(p as int) + ins@ + doc@.skip(p as int));
            out
        },
        None => doc,
    }
}

// ---------------------------------------------------------------------------
// Template markers and preview documents
// ---------------------------------------------------------------------------

/// Line that opens the body region of a template.
pub const MARKER_START: &'static str = "% APP_BODY_START";
/// Line that closes the body region of a template.
pub const MARKER_END: &'static str = "% APP_BODY_END";

/// The template with everything between its body markers replaced by `body`;
/// `None` where a marker is missing or the end marker comes first.
pub open spec fn at_markers(tpl: Seq<char>, body: Seq<char>) -> Option<Seq<char>> {
    match (find(tpl, MARKER_START@), find(tpl, MARKER_END@)) {
        (Some(s), Some(e)) => if e < s {
            None
        } else {
            Some(tpl.take(s + MARKER_START@.len()) + "\n"@ + body + "\n"@ + tpl.skip(e))
        },
        _ => None,
    }
}

pub fn insert_at_markers(tpl: &Vec<char>, body: &Vec<char>) -> (r: Option<Vec<char>>)
    ensures
        r matches Some(x) ==> at_markers(tpl@, body@) == Some(x@),
        r is None ==> at_markers(tpl@, body@) is None,
{
    let ms = chars_of(MARKER_START);
    let me = chars_of(MARKER_END);
    let fs = find_first(tpl, &ms);
    let s = match fs {
        Some(s) => s,
        None => return None,
    };
    let sl = ms.len();
    assert(s + sl <= tpl.len());
    let e = match find_first(tpl, &me) {
        Some(e) => e,
        None => return None,
    };
    if e < s {
        return None;
    }
    proof {
        crate::text::lemma_find_from(tpl@, ms@, 0);
    }
    let mut out = slice_of(tpl, 0, s + sl);
    push_str(&mut out, "\n");
    push_all(&mut out, body);
    push_str(&mut out, "\n");
    let tail = slice_of(tpl, e, tpl.len());
    push_all(&mut out, &tail);
    assert(out@ =~= tpl@.take(s + MARKER_START@.len()) + "\n"@ + body@ + "\n"@ + tpl@.skip(e as int));
    Some(out)
}

// ---------------------------------------------------------------------------
// Bodies of the booklets
// ---------------------------------------------------------------------------

/// Closing of a ruled two-column block.
pub const TWO_COL_END: &'static str = "\\end{multicols}}\n";

/// The booklet bodies rendered from a document's items.
pub struct Bodies {
    /// Problem booklet body: statements only.
    pub body: String,
    /// Answer booklet body without explanations.
    pub answer_plain: String,
    /// Answer booklet body with each explanation after its answer.
    pub answer_inline: String,
    /// The explanations alone, for templates that place them separately.
    pub explanation: String,
}

/// The four bodies as text.
pub struct BodiesModel {
    pub body: Seq<char>,
    pub answer_plain: Seq<char>,
    pub answer_inline: Seq<char>,
    pub explanation: Seq<char>,
}

impl View for Bodies {
    type V = BodiesModel;

    open spec fn view(&self) -> BodiesModel {
        BodiesModel {
            body: self.body@,
            answer_plain: self.answer_plain@,
            answer_inline: self.answer_inline@,
            explanation: self.explanation@,
        }
    }
}

/// The four bodies and the numbering reached after some items.
pub struct RenderState {
    pub body: Seq<char>,
    pub answer_plain: Seq<char>,
    pub answer_inline: Seq<char>,
    pub explanation: Seq<char>,
    /// Problems numbered so far (in the current chapter, where numbering restarts per chapter).
    pub n: nat,
    /// Numbered chapters so far.
    pub chapter_no: nat,
    /// Whether the current chapter is numbered.
    pub chapter_numbered: bool,
}

pub open spec fn bodies_of(st: RenderState) -> BodiesModel {
    BodiesModel {
        body: st.body,
        answer_plain: st.answer_plain,
        answer_inline: st.answer_inline,
        explanation: st.explanation,
    }
}

pub open spec fn initial_state() -> RenderState {
    RenderState {
        body: seq![],
        answer_plain: seq![],
        answer_inline: seq![],
        explanation: seq![],
        n: 0,
        chapter_no: 0,
        chapter_numbered: false,
    }
}

/// The difficulty marks of a problem: a star where it is required, then its rank.
pub open spec fn badge_lines(item: ProjectItem, settings: ProjectSettings) -> Seq<Seq<char>> {
    let show_rank = settings.difficulty_display@ != "none"@;
    let show_required = settings.required_display@ != "none"@ && item.snap_is_required;
    let star = if show_required { seq!["★"@] } else { seq![] };
    let rank = match item.snap_difficulty_rank {
        Some(r) => if show_rank && trim(r@).len() > 0 { seq![escape_seq(r@)] } else { seq![] },
        None => seq![],
    };
    star + rank
}

/// The marks set flush right in the problem head.
pub open spec fn right_badge(item: ProjectItem, settings: ProjectSettings) -> Seq<char> {
    let parts = badge_lines(item, settings);
    if parts.len() == 0 {
        seq![]
    } else {
        "\\hfill {\\small "@ + join(parts, "\\;"@) + "}"@
    }
}

/// The marks set beside the problem number.
pub open spec fn side_badge(item: ProjectItem, settings: ProjectSettings) -> Seq<char> {
    let parts = badge_lines(item, settings);
    if parts.len() == 0 {
        seq![]
    } else {
        "{\\scriptsize "@ + join(parts, seq![]) + "}"@
    }
}

/// The label of problem `n` (`chapter-n` inside a numbered chapter when numbering
/// restarts per chapter), written into the number format at `{n}`.
pub open spec fn problem_label(settings: ProjectSettings, n: nat, chapter_no: nat, chapter_numbered: bool) -> Seq<char> {
    let n_str = if settings.reset_numbering_per_chapter && chapter_numbered {
        decimal(chapter_no) + "-"@ + decimal(n)
    } else {
        decimal(n)
    };
    replace_all(settings.number_format@, "{n}"@, n_str)
}

/// The head of problem `n`: its label (where problems are numbered) and its marks.
pub open spec fn problem_head(item: ProjectItem, settings: ProjectSettings, n: nat, chapter_no: nat, chapter_numbered: bool) -> Seq<char> {
    let top_right = settings.difficulty_display@ == "top_right"@;
    if settings.auto_number {
        let side = side_badge(item, settings);
        let number_badge = if top_right || side.len() == 0 {
            seq![]
        } else {
            "\\nobreak\\hspace{0.15em}"@ + side
        };
        let right = if top_right { right_badge(item, settings) } else { seq![] };
        "\\par\\medskip\n\\noindent\\textbf{"@ + escape_seq(problem_label(settings, n, chapter_no, chapter_numbered))
            + "}"@ + number_badge + right + "\\par\n"@
    } else {
        let badge = if top_right { right_badge(item, settings) } else { side_badge(item, settings) };
        if badge.len() == 0 {
            "\\par\\medskip\n\\noindent\n"@
        } else {
            "\\par\\medskip\n\\noindent"@ + badge + "\\par\n"@
        }
    }
}

/// A sectioning command with the given text.
pub open spec fn numbered_heading(cmd: Seq<char>, text: Seq<char>) -> Seq<char> {
    "\\"@ + cmd + "{"@ + text + "}\n\n"@
}

/// An unnumbered sectioning command, entered in the table of contents where asked.
pub open spec fn starred_heading(cmd: Seq<char>, text: Seq<char>, toc: bool) -> Seq<char> {
    if toc {
        "\\"@ + cmd + "*{"@ + text + "}\n\\addcontentsline{toc}{"@ + cmd + "}{"@ + text + "}\n\n"@
    } else {
        "\\"@ + cmd + "*{"@ + text + "}\n\n"@
    }
}

pub open spec fn heading_step(st: RenderState, item: ProjectItem, settings: ProjectSettings) -> RenderState {
    let cmd = if item.heading_level >= 2 { "subsection"@ } else { "section"@ };
    let esc = escape_seq(item.content@);
    let numbered = settings.number_headings && item.heading_numbered;
    let chapter = item.heading_level <= 1;
    let n = if chapter && settings.reset_numbering_per_chapter { 0 } else { st.n };
    let chapter_no = if chapter && numbered { st.chapter_no + 1 } else { st.chapter_no };
    let chapter_numbered = if chapter { numbered } else { st.chapter_numbered };
    let s = if numbered { numbered_heading(cmd, esc) } else { starred_heading(cmd, esc, settings.show_toc) };
    let answer_text = if numbered && chapter { decimal(chapter_no) + "　"@ + esc } else { esc };
    let sa = starred_heading(cmd, answer_text, settings.show_toc);
    RenderState {
        body: st.body + s,
        answer_plain: st.answer_plain + sa,
        answer_inline: st.answer_inline + sa,
        n: n as nat,
        chapter_no,
        chapter_numbered,
        ..st
    }
}

/// A part's text, with the blank lines that follow it.
pub open spec fn part_text(item: ProjectItem) -> Seq<char> {
    let latex = if item.snap_part_type@ == "page_break"@ && trim(item.content@).len() == 0 {
        "\\newpage"@
    } else {
        item.content@
    };
    let latex = if has_suffix(latex, "\n"@) { latex } else { latex + "\n"@ };
    latex + "\n"@
}

pub open spec fn part_step(st: RenderState, item: ProjectItem) -> RenderState {
    let target = item.snap_part_output_target@;
    if target == "none"@ {
        st
    } else {
        let latex = part_text(item);
        let to_problems = target == "problems"@ || target == "both"@;
        let to_answers = target == "answers"@ || target == "both"@;
        RenderState {
            body: if to_problems { st.body + latex } else { st.body },
            answer_plain: if to_answers { st.answer_plain + latex } else { st.answer_plain },
            answer_inline: if to_answers { st.answer_inline + latex } else { st.answer_inline },
            ..st
        }
    }
}

pub open spec fn wrap_columns(answer_only_cols: bool, core: Seq<char>) -> Seq<char> {
    if answer_only_cols {
        TWO_COL_BEGIN@ + core + TWO_COL_END@
    } else {
        core
    }
}

pub open spec fn problem_step(st: RenderState, item: ProjectItem, settings: ProjectSettings) -> RenderState {
    let n = st.n + 1;
    let head = problem_head(item, settings, n, st.chapter_no, st.chapter_numbered);
    let statement = item.snap_statement@;
    let explanation = item.snap_explanation@;
    let has_expl = settings.include_explanation && trim(explanation).len() > 0;
    let cols = settings.two_column_mode@ == "answer_only"@;
    let ans_head = if settings.include_statement_in_answers && settings.box_statement_in_answers {
        statement_box(head, statement)
    } else if settings.include_statement_in_answers {
        head + statement + "\n\\par\\vspace{0.5em}\n"@
    } else {
        head
    };
    let core_plain = "\\noindent\\textbf{【解答】}\\par\n"@ + item.snap_answer@ + "\n"@;
    let core_inline = if has_expl {
        core_plain + "\\par\\vspace{0.5em}\n\\noindent\\textbf{【解説】}\\par\n"@ + explanation + "\n"@
    } else {
        core_plain
    };
    let expl = if has_expl {
        st.explanation + head + "\\noindent\\textbf{【解説】}\\par\n"@ + explanation + "\n\\par\\medskip\n\n"@
    } else {
        st.explanation
    };
    let brk = if settings.page_break_per_problem { "\\newpage\n\n"@ } else { seq![] };
    RenderState {
        body: st.body + head + statement + "\n\\par\\medskip\n\n"@ + brk,
        answer_plain: st.answer_plain + ans_head + wrap_columns(cols, core_plain) + "\\par\\medskip\n\n"@ + brk,
        answer_inline: st.answer_inline + ans_head + wrap_columns(cols, core_inline) + "\\par\\medskip\n\n"@ + brk,
        explanation: expl,
        n,
        ..st
    }
}

/// The bodies after one more item.
pub open spec fn render_step(st: RenderState, item: ProjectItem, settings: ProjectSettings) -> RenderState {
    let t = item.item_type@;
    if t == "heading"@ {
        heading_step(st, item, settings)
    } else if t == "text"@ {
        let c = item.content@ + "\n\n"@;
        RenderState {
            body: st.body + c,
            answer_plain: st.answer_plain + c,
            answer_inline: st.answer_inline + c,
            ..st
        }
    } else if t == "pagebreak"@ {
        let c = "\\newpage\n\n"@;
        RenderState {
            body: st.body + c,
            answer_plain: st.answer_plain + c,
            answer_inline: st.answer_inline + c,
            ..st
        }
    } else if t == "part"@ {
        part_step(st, item)
    } else if t == "problem"@ {
        problem_step(st, item, settings)
    } else {
        st
    }
}

/// The bodies after all of `items`, in order.
pub open spec fn render_items(items: Seq<ProjectItem>, settings: ProjectSettings) -> RenderState
    decreases items.len(),
{
    if items.len() == 0 {
        initial_state()
    } else {
        render_step(render_items(items.drop_last(), settings), items.last(), settings)
    }
}

/// Law: a heading item adds, to each of the problem and answer bodies, a
/// sectioning command right after what was there before: `\subsection` for a
/// heading of level 2 or deeper, `\section` for a top-level heading.
pub proof fn lemma_heading_levels_choose_the_command(items: Seq<ProjectItem>, settings: ProjectSettings, h: ProjectItem)
    requires
        h.item_type@ == "heading"@,
    ensures
        ({
            let before = render_items(items, settings);
            let after = render_items(items.push(h), settings);
            let cmd = if h.heading_level >= 2 { "\\subsection"@ } else { "\\section"@ };
            &&& after.body.len() >= before.body.len()
            &&& after.body.take(before.body.len() as int) == before.body
            &&& has_prefix(after.body.skip(before.body.len() as int), cmd)
            &&& after.answer_plain.len() >= before.answer_plain.len()
            &&& after.answer_plain.take(before.answer_plain.len() as int) == before.answer_plain
            &&& has_prefix(after.answer_plain.skip(before.answer_plain.len() as int), cmd)
            &&& after.answer_inline.take(before.answer_inline.len() as int) == before.answer_inline
            &&& has_prefix(after.answer_inline.skip(before.answer_inline.len() as int), cmd)
        }),
{
    reveal_strlit("\\subsection");
    reveal_strlit("\\section");
    reveal_strlit("\\");
    reveal_strlit("subsection");
    reveal_strlit("section");
    assert(items.push(h).drop_last() =~= items);
    let st = render_items(items, settings);
    let after = render_items(items.push(h), settings);
    assert(after == heading_step(st, h, settings));
    let cmd = if h.heading_level >= 2 { "subsection"@ } else { "section"@ };
    let full = "\\"@ + cmd;
    assert(full == if h.heading_level >= 2 { "\\subsection"@ } else { "\\section"@ });
    let esc = escape_seq(h.content@);
    let numbered = settings.number_headings && h.heading_numbered;
    let chapter = h.heading_level <= 1;
    let chapter_no = if chapter && numbered { st.chapter_no + 1 } else { st.chapter_no };
    let sb = if numbered { numbered_heading(cmd, esc) } else { starred_heading(cmd, esc, settings.show_toc) };
    let answer_text = if numbered && chapter { decimal(chapter_no) + "　"@ + esc } else { esc };
    let sa = starred_heading(cmd, answer_text, settings.show_toc);
    assert(after.body == st.body + sb);
    assert(after.answer_plain == st.answer_plain + sa);
    assert(after.answer_inline == st.answer_inline + sa);
    assert(sb.take(full.len() as int) =~= full);
    assert(sa.take(full.len() as int) =~= full);
    assert((st.body + sb).take(st.body.len() as int) =~= st.body);
    assert((st.body + sb).skip(st.body.len() as int) =~= sb);
    assert((st.answer_plain + sa).take(st.answer_plain.len() as int) =~= st.answer_plain);
    assert((st.answer_plain + sa).skip(st.answer_plain.len() as int) =~= sa);
    assert((st.answer_inline + sa).take(st.answer_inline.len() as int) =~= st.answer_inline);
    assert((st.answer_inline + sa).skip(st.answer_inline.len() as int) =~= sa);
}

// Executable rendering -------------------------------------------------------

fn badge_lines_exec(item: &ProjectItem, settings: &ProjectSettings) -> (r: Vec<Vec<char>>)
    ensures
        views(r@) == badge_lines(*item, *settings),
{
    let dd = chars_of(settings.difficulty_display.as_str());
    let rd = chars_of(settings.required_display.as_str());
    let show_rank = !is_str(&dd, "none");
    let show_required = !is_str(&rd, "none") && item.snap_is_required;
    let mut lines: Vec<Vec<char>> = Vec::new();
    if show_required {
        lines.push(chars_of("★"));
    }
    let ghost star = views(lines@);
    match &item.snap_difficulty_rank {
        Some(r) => {
            let rv = chars_of(r.as_str());
            if show_rank && !is_blank(&rv) {
                lines.push(escape_chars(&rv));
                assert(views(lines@) =~= star + seq![escape_seq(r@)]);
            } else {
                assert(views(lines@) =~= star + seq![]);
            }
        },
        None => {
            assert(views(lines@) =~= star + seq![]);
        },
    }
    assert(star =~= (if show_required { seq!["★"@] } else { seq![] }));
    lines
}

fn right_badge_exec(item: &ProjectItem, settings: &ProjectSettings) -> (r: Vec<char>)
    ensures
        r@ == right_badge(*item, *settings),
{
    let parts = badge_lines_exec(item, settings);
    let mut out: Vec<char> = Vec::new();
    if parts.len() > 0 {
        push_str(&mut out, "\\hfill {\\small ");
        let sep = chars_of("\\;");
        let j = join_chars(&parts, &sep);
        push_all(&mut out, &j);
        push_str(&mut out, "}");
    }
    assert(out@ =~= right_badge(*item, *settings));
    out
}

fn side_badge_exec(item: &ProjectItem, settings: &ProjectSettings) -> (r: Vec<char>)
    ensures
        r@ == side_badge(*item, *settings),
{
    let parts = badge_lines_exec(item, settings);
    let mut out: Vec<char> = Vec::new();
    if parts.len() > 0 {
        push_str(&mut out, "{\\scriptsize ");
        let sep: Vec<char> = Vec::new();
        let j = join_chars(&parts, &sep);
        push_all(&mut out, &j);
        push_str(&mut out, "}");
    }
    assert(out@ =~= side_badge(*item, *settings));
    out
}

fn problem_head_exec(item: &ProjectItem, settings: &ProjectSettings, n: u64, chapter_no: u64, chapter_numbered: bool) -> (r: Vec<char>)
    ensures
        r@ == problem_head(*item, *settings, n as nat, chapter_no as nat, chapter_numbered),
{
    let dd = chars_of(settings.difficulty_display.as_str());
    let top_right = is_str(&dd, "top_right");
    let mut out: Vec<char> = Vec::new();
    if settings.auto_number {
        let mut n_str: Vec<char> = Vec::new();
        if settings.reset_numbering_per_chapter && chapter_numbered {
            n_str = decimal_of(chapter_no);
            push_str(&mut n_str, "-");
            let d = decimal_of(n);
            push_all(&mut n_str, &d);
        } else {
            n_str = decimal_of(n);
        }
        let fmt = chars_of(settings.number_format.as_str());
        let pat = chars_of("{n}");
        let label = replace_chars(&fmt, &pat, &n_str);
        assert(label@ == problem_label(*settings, n as nat, chapter_no as nat, chapter_numbered));
        let side = side_badge_exec(item, settings);
        push_str(&mut out, "\\par\\medskip\n\\noindent\\textbf{");
        let el = escape_chars(&label);
        push_all(&mut out, &el);
        push_str(&mut out, "}");
        if !(top_right || side.len() == 0) {
            push_str(&mut out, "\\nobreak\\hspace{0.15em}");
            push_all(&mut out, &side);
        }
        if top_right {
            let right = right_badge_exec(item, settings);
            push_all(&mut out, &right);
        }
        push_str(&mut out, "\\par\n");
    } else {
        let badge = if top_right {
            right_badge_exec(item, settings)
        } else {
            side_badge_exec(item, settings)
        };
        if badge.len() == 0 {
            push_str(&mut out, "\\par\\medskip\n\\noindent\n");
        } else {
            push_str(&mut out, "\\par\\medskip\n\\noindent");
            push_all(&mut out, &badge);
            push_str(&mut out, "\\par\n");
        }
    }
    assert(out@ =~= problem_head(*item, *settings, n as nat, chapter_no as nat, chapter_numbered));
    out
}

struct BodiesBuf {
    body: Vec<char>,
    answer_plain: Vec<char>,
    answer_inline: Vec<char>,
    explanation: Vec<char>,
    n: usize,
    chapter_no: usize,
    chapter_numbered: bool,
}

spec fn holds(b: BodiesBuf, st: RenderState) -> bool {
    &&& b.body@ == st.body
    &&& b.answer_plain@ == st.answer_plain
    &&& b.answer_inline@ == st.answer_inline
    &&& b.explanation@ == st.explanation
    &&& b.n as nat == st.n
    &&& b.chapter_no as nat == st.chapter_no
    &&& b.chapter_numbered == st.chapter_numbered
}

fn starred_heading_exec(cmd: &Vec<char>, text: &Vec<char>, toc: bool) -> (r: Vec<char>)
    ensures
        r@ == starred_heading(cmd@, text@, toc),
{
    let mut out: Vec<char> = Vec::new();
    push_str(&mut out, "\\");
    push_all(&mut out, cmd);
    push_str(&mut out, "*{");
    push_all(&mut out, text);
    if toc {
        push_str(&mut out, "}\n\\addcontentsline{toc}{");
        push_all(&mut out, cmd);
        push_str(&mut out, "}{");
        push_all(&mut out, text);
        push_str(&mut out, "}\n\n");
    } else {
        push_str(&mut out, "}\n\n");
    }
    assert(out@ =~= starred_heading(cmd@, text@, toc));
    out
}

fn heading_exec(b: &mut BodiesBuf, item: &ProjectItem, settings: &ProjectSettings, st: Ghost<RenderState>)
    requires
        holds(*old(b), st@),
        old(b).chapter_no < usize::MAX,
    ensures
        holds(*final(b), heading_step(st@, *item, *settings)),
        final(b).n <= old(b).n,
        final(b).chapter_no <= old(b).chapter_no + 1,
{
    let cmd = if item.heading_level >= 2 { chars_of("subsection") } else { chars_of("section") };
    let content = chars_of(item.content.as_str());
    let esc = escape_chars(&content);
    let numbered = settings.number_headings && item.heading_numbered;
    let chapter = item.heading_level <= 1;
    if chapter {
        if settings.reset_numbering_per_chapter {
            b.n = 0;
        }
        if numbered {
            b.chapter_no = b.chapter_no + 1;
            b.chapter_numbered = true;
        } else {
            b.chapter_numbered = false;
        }
    }
    let s = if numbered {
        let mut s: Vec<char> = Vec::new();
        push_str(&mut s, "\\");
        push_all(&mut s, &cmd);
        push_str(&mut s, "{");
        push_all(&mut s, &esc);
        push_str(&mut s, "}\n\n");
        assert(s@ =~= numbered_heading(cmd@, esc@));
        s
    } else {
        starred_heading_exec(&cmd, &esc, settings.show_toc)
    };
    let answer_text = if numbered && chapter {
        let mut t = decimal_of(b.chapter_no as u64);
        push_str(&mut t, "　");
        push_all(&mut t, &esc);
        t
    } else {
        esc
    };
    let sa = starred_heading_exec(&cmd, &answer_text, settings.show_toc);
    push_all(&mut b.body, &s);
    push_all(&mut b.answer_plain, &sa);
    push_all(&mut b.answer_inline, &sa);
}

fn push_three(b: &mut BodiesBuf, c: &Vec<char>)
    ensures
        final(b).body@ == old(b).body@ + c@,
        final(b).answer_plain@ == old(b).answer_plain@ + c@,
        final(b).answer_inline@ == old(b).answer_inline@ + c@,
        final(b).explanation == old(b).explanation,
        final(b).n == old(b).n,
        final(b).chapter_no == old(b).chapter_no,
        final(b).chapter_numbered == old(b).chapter_numbered,
{
    push_all(&mut b.body, c);
    push_all(&mut b.answer_plain, c);
    push_all(&mut b.answer_inline, c);
}

/// Adds a part's text to the bodies that its output target names.
fn append_part_to_bodies(b: &mut BodiesBuf, item: &ProjectItem, st: Ghost<RenderState>)
    requires
        holds(*old(b), st@),
    ensures
        holds(*final(b), part_step(st@, *item)),
        final(b).n == old(b).n,
        final(b).chapter_no == old(b).chapter_no,
{
    let target = chars_of(item.snap_part_output_target.as_str());
    if is_str(&target, "none") {
        return;
    }
    let pt = chars_of(item.snap_part_type.as_str());
    let content = chars_of(item.content.as_str());
    let mut latex = if is_str(&pt, "page_break") && is_blank(&content) {
        chars_of("\\newpage")
    } else {
        content
    };
    if !ends_with_str(&latex, "\n") {
        push_str(&mut latex, "\n");
    }
    push_str(&mut latex, "\n");
    assert(latex@ == part_text(*item));
    let both = is_str(&target, "both");
    if is_str(&target, "problems") || both {
        push_all(&mut b.body, &latex);
    }
    if is_str(&target, "answers") || both {
        push_all(&mut b.answer_plain, &latex);
        push_all(&mut b.answer_inline, &latex);
    }
}

fn wrap_columns_exec(cols: bool, core: &Vec<char>) -> (r: Vec<char>)
    ensures
        r@ == wrap_columns(cols, core@),
{
    if cols {
        let mut out: Vec<char> = Vec::new();
        push_str(&mut out, TWO_COL_BEGIN);
        push_all(&mut out, core);
        push_str(&mut out, TWO_COL_END);
        out
    } else {
        core.clone()
    }
}

fn problem_exec(b: &mut BodiesBuf, item: &ProjectItem, settings: &ProjectSettings, st: Ghost<RenderState>)
    requires
        holds(*old(b), st@),
        old(b).n < usize::MAX,
    ensures
        holds(*final(b), problem_step(st@, *item, *settings)),
        final(b).n == old(b).n + 1,
        final(b).chapter_no == old(b).chapter_no,
{
    b.n = b.n + 1;
    let head = problem_head_exec(item, settings, b.n as u64, b.chapter_no as u64, b.chapter_numbered);
    let statement = chars_of(item.snap_statement.as_str());
    let explanation = chars_of(item.snap_explanation.as_str());
    let answer = chars_of(item.snap_answer.as_str());
    let has_expl = settings.include_explanation && !is_blank(&explanation);
    let tc = chars_of(settings.two_column_mode.as_str());
    let cols = is_str(&tc, "answer_only");
    push_all(&mut b.body, &head);
    push_all(&mut b.body, &statement);
    push_str(&mut b.body, "\n\\par\\medskip\n\n");
    let ans_head = if settings.include_statement_in_answers && settings.box_statement_in_answers {
        answer_statement_box_tex(&head, &statement)
    } else if settings.include_statement_in_answers {
        let mut plain = head.clone();
        push_all(&mut plain, &statement);
        push_str(&mut plain, "\n\\par\\vspace{0.5em}\n");
        plain
    } else {
        head.clone()
    };
    let mut core_plain: Vec<char> = Vec::new();
    push_str(&mut core_plain, "\\noindent\\textbf{【解答】}\\par\n");
    push_all(&mut core_plain, &answer);
    push_str(&mut core_plain, "\n");
    let mut core_inline = core_plain.clone();
    if has_expl {
        push_str(&mut core_inline, "\\par\\vspace{0.5em}\n\\noindent\\textbf{【解説】}\\par\n");
        push_all(&mut core_inline, &explanation);
        push_str(&mut core_inline, "\n");
        push_all(&mut b.explanation, &head);
        push_str(&mut b.explanation, "\\noindent\\textbf{【解説】}\\par\n");
        push_all(&mut b.explanation, &explanation);
        push_str(&mut b.explanation, "\n\\par\\medskip\n\n");
    }
    let wp = wrap_columns_exec(cols, &core_plain);
    let wi = wrap_columns_exec(cols, &core_inline);
    push_all(&mut b.answer_plain, &ans_head);
    push_all(&mut b.answer_plain, &wp);
    push_str(&mut b.answer_plain, "\\par\\medskip\n\n");
    push_all(&mut b.answer_inline, &ans_head);
    push_all(&mut b.answer_inline, &wi);
    push_str(&mut b.answer_inline, "\\par\\medskip\n\n");
    if settings.page_break_per_problem {
        push_str(&mut b.body, "\\newpage\n\n");
        push_str(&mut b.answer_plain, "\\newpage\n\n");
        push_str(&mut b.answer_inline, "\\newpage\n\n");
    }
    proof {
        let ps = problem_step(st@, *item, *settings);
        let brk = if settings.page_break_per_problem { "\\newpage\n\n"@ } else { seq![] };
        assert(b.body@ =~= ps.body);
        assert(b.answer_plain@ =~= ps.answer_plain);
        assert(b.answer_inline@ =~= ps.answer_inline);
        assert(b.explanation@ =~= ps.explanation);
    }
}

/// Renders the items of a document into the problem, answer and explanation bodies.
pub fn render_bodies(items: &[ProjectItem], settings: &ProjectSettings) -> (r: Bodies)
    ensures
        r@ == bodies_of(render_items(items@, *settings)),
{
    let mut b = BodiesBuf {
        body: Vec::new(),
        answer_plain: Vec::new(),
        answer_inline: Vec::new(),
        explanation: Vec::new(),
        n: 0,
        chapter_no: 0,
        chapter_numbered: false,
    };
    let mut i: usize = 0;
    assert(items@.take(0) =~= Seq::<ProjectItem>::empty());
    while i < items.len()
        invariant
            i <= items.len(),
            holds(b, render_items(items@.take(i as int), *settings)),
            b.n <= i,
            b.chapter_no <= i,
        decreases items.len() - i,
    {
        let ghost st = render_items(items@.take(i as int), *settings);
        proof {
            assert(items@.take(i + 1).drop_last() =~= items@.take(i as int));
            assert(items@.take(i + 1).last() == items@[i as int]);
        }
        let item = &items[i];
        let t = chars_of(item.item_type.as_str());
        if is_str(&t, "heading") {
            heading_exec(&mut b, item, settings, Ghost(st));
        } else if is_str(&t, "text") {
            let mut c = chars_of(item.content.as_str());
            push_str(&mut c, "\n\n");
            push_three(&mut b, &c);
        } else if is_str(&t, "pagebreak") {
            let c = chars_of("\\newpage\n\n");
            push_three(&mut b, &c);
        } else if is_str(&t, "part") {
            append_part_to_bodies(&mut b, item, Ghost(st));
        } else if is_str(&t, "problem") {
            problem_exec(&mut b, item, settings, Ghost(st));
        }
        i += 1;
    }
    assert(items@.take(items.len() as int) =~= items@);
    let r = Bodies {
        body: string_of(&b.body),
        answer_plain: string_of(&b.answer_plain),
        answer_inline: string_of(&b.answer_inline),
        explanation: string_of(&b.explanation),
    };
    assert(r@ =~= bodies_of(render_items(items@, *settings)));
    r
}

// ---------------------------------------------------------------------------
// Filling a template
// ---------------------------------------------------------------------------

/// The main body of a booklet of the given kind, before it goes into the template.
pub open spec fn main_body(tpl: Seq<char>, kind: Seq<char>, settings: ProjectSettings, bodies: BodiesModel) -> Seq<char> {
    let is_answers = kind == "answers"@;
    let is_combined = kind == "combined"@;
    let ab0 = if !is_combined && contains(tpl, "{{EXPLANATION_BODY}}"@) {
        bodies.answer_plain
    } else {
        bodies.answer_inline
    };
    let answer_body = if (is_answers || is_combined) && settings.two_column_mode@ == "all"@ {
        TWO_COL_BEGIN@ + ab0 + TWO_COL_END@
    } else {
        ab0
    };
    let toc_line = if settings.show_toc { "\\addcontentsline{toc}{section}{──── 解答編 ────}\n"@ } else { seq![] };
    let main0 = if is_answers {
        answer_body
    } else if is_combined {
        bodies.body + "\n\\clearpage\n"@ + toc_line
            + "\\begin{center}{\\LARGE \\textbf{解答}}\\end{center}\n\\par\\medskip\n\n"@ + answer_body
    } else {
        bodies.body
    };
    if settings.show_toc && !contains(tpl, "{{TOC}}"@) {
        "\\tableofcontents\n\\par\\bigskip\n\n"@ + main0
    } else {
        main0
    }
}

/// The template with the body placed: at its markers where it has them, then
/// the table-of-contents and body placeholders filled.
pub open spec fn placed_body(tpl: Seq<char>, kind: Seq<char>, settings: ProjectSettings, bodies: BodiesModel) -> Seq<char> {
    let is_answers = kind == "answers"@;
    let main = main_body(tpl, kind, settings, bodies);
    let d1 = match at_markers(tpl, main) {
        Some(x) => x,
        None => tpl,
    };
    let d2 = replace_all(d1, "{{TOC}}"@, if settings.show_toc { "\\tableofcontents"@ } else { seq![] });
    let body_ph = if is_answers && contains(d2, "{{ANSWER_BODY}}"@) { bodies.body } else { main };
    let d3 = replace_all(d2, "{{BODY}}"@, body_ph);
    let d4 = replace_all(d3, "{{ANSWER_BODY}}"@, if is_answers { main } else { seq![] });
    replace_all(d4, "{{EXPLANATION_BODY}}"@, if is_answers { bodies.explanation } else { seq![] })
}

pub open spec fn or_else(s: Seq<char>, fallback: Seq<char>) -> Seq<char> {
    if trim(s).len() == 0 {
        fallback
    } else {
        s
    }
}

/// The booklet title: the configured one, else the project name.
pub open spec fn booklet_title(project_name: Seq<char>, settings: ProjectSettings) -> Seq<char> {
    or_else(settings.booklet_title@, project_name)
}

/// The right-aligned target, date and (in problem booklets) name line.
pub open spec fn name_field(settings: ProjectSettings, is_answers: bool) -> Seq<char> {
    let parts = (if trim(settings.target@).len() > 0 { seq![escape_seq(settings.target@)] } else { seq![] })
        + (if trim(settings.date_str@).len() > 0 { seq![escape_seq(settings.date_str@)] } else { seq![] })
        + (if settings.show_name_field && !is_answers { seq!["氏名\\ \\underline{\\hspace{5cm}}"@] } else { seq![] });
    if parts.len() == 0 {
        seq![]
    } else {
        "\\begin{flushright}\n"@ + join(parts, " \\quad "@) + "\n\\end{flushright}"@
    }
}

/// The title, header and meta placeholders filled in.
pub open spec fn filled_meta(d: Seq<char>, kind: Seq<char>, project_name: Seq<char>, settings: ProjectSettings) -> Seq<char> {
    let is_answers = kind == "answers"@;
    let title = booklet_title(project_name, settings);
    let header_left = or_else(settings.header_left@, title);
    let header_right = or_else(settings.header_right@, settings.date_str@);
    let d6 = if is_answers && !contains(d, "{{ANSWER_TITLE}}"@) {
        replace_all(replace_all(d, "{{TITLE}}　解答"@, "{{ANSWER_TITLE}}"@), "{{TITLE}} 解答"@, "{{ANSWER_TITLE}}"@)
    } else {
        d
    };
    let answer_title = if settings.show_title { escape_seq(title) + "　解答"@ } else { seq![] };
    let d7 = replace_all(d6, "{{ANSWER_TITLE}}"@, answer_title);
    let d8 = if settings.show_title {
        replace_all(replace_all(d7, "{{TITLE}}"@, escape_seq(title)), "{{SUBTITLE}}"@, escape_seq(settings.subtitle@))
    } else {
        replace_all(replace_all(d7, "{{TITLE}}"@, seq![]), "{{SUBTITLE}}"@, seq![])
    };
    let d9 = if settings.show_header {
        replace_all(replace_all(d8, "{{HEADER_LEFT}}"@, escape_seq(header_left)), "{{HEADER_RIGHT}}"@, escape_seq(header_right))
    } else {
        let x = replace_all(replace_all(d8, "{{HEADER_LEFT}}"@, seq![]), "{{HEADER_RIGHT}}"@, seq![]);
        if contains(x, "fancyhdr"@) {
            replace_all(x, "\\begin{document}"@, "\\fancyhead{}\\renewcommand{\\headrulewidth}{0pt}\n\\begin{document}"@)
        } else {
            x
        }
    };
    let d10 = replace_all(d9, "{{TARGET}}"@, escape_seq(settings.target@));
    let d11 = replace_all(d10, "{{DATE}}"@, escape_seq(settings.date_str@));
    let d12 = replace_all(d11, "{{NAME_FIELD}}"@, name_field(settings, is_answers));
    replace_all(d12, "{{PAGE_BREAK}}"@, "\\newpage"@)
}

/// The finished `.tex` of a booklet (`kind` is "problems", "answers" or "combined").
pub open spec fn document(tpl: Seq<char>, kind: Seq<char>, project_name: Seq<char>, settings: ProjectSettings, bodies: BodiesModel) -> Seq<char> {
    let main = main_body(tpl, kind, settings, bodies);
    with_tcolorbox(
        filled_meta(placed_body(tpl, kind, settings, bodies), kind, project_name, settings),
        contains(main, "\\begin{tcolorbox}"@),
        contains(main, "enhanced"@),
    )
}

fn main_body_exec(tpl: &Vec<char>, is_answers: bool, is_combined: bool, settings: &ProjectSettings, bodies: &Bodies, kind: Ghost<Seq<char>>) -> (r: Vec<char>)
    requires
        is_answers == (kind@ == "answers"@),
        is_combined == (kind@ == "combined"@),
    ensures
        r@ == main_body(tpl@, kind@, *settings, bodies@),
{
    let ab0 = if !is_combined && contains_str(tpl, "{{EXPLANATION_BODY}}") {
        chars_of(bodies.answer_plain.as_str())
    } else {
        chars_of(bodies.answer_inline.as_str())
    };
    let tc = chars_of(settings.two_column_mode.as_str());
    let answer_body = if (is_answers || is_combined) && is_str(&tc, "all") {
        wrap_columns_exec(true, &ab0)
    } else {
        ab0
    };
    let mut main = if is_answers {
        answer_body
    } else if is_combined {
        let mut m = chars_of(bodies.body.as_str());
        push_str(&mut m, "\n\\clearpage\n");
        if settings.show_toc {
            push_str(&mut m, "\\addcontentsline{toc}{section}{──── 解答編 ────}\n");
        }
        push_str(&mut m, "\\begin{center}{\\LARGE \\textbf{解答}}\\end{center}\n\\par\\medskip\n\n");
        push_all(&mut m, &answer_body);
        m
    } else {
        chars_of(bodies.body.as_str())
    };
    if settings.show_toc && !contains_str(tpl, "{{TOC}}") {
        let mut m = chars_of("\\tableofcontents\n\\par\\bigskip\n\n");
        push_all(&mut m, &main);
        main = m;
    }
    assert(main@ =~= main_body(tpl@, kind@, *settings, bodies@));
    main
}

fn or_else_exec(s: &String, fallback: Vec<char>) -> (r: Vec<char>)
    ensures
        r@ == or_else(s@, fallback@),
{
    let v = chars_of(s.as_str());
    if is_blank(&v) {
        fallback
    } else {
        v
    }
}

fn name_field_exec(settings: &ProjectSettings, is_answers: bool) -> (r: Vec<char>)
    ensures
        r@ == name_field(*settings, is_answers),
{
    let target = chars_of(settings.target.as_str());
    let date = chars_of(settings.date_str.as_str());
    let mut parts: Vec<Vec<char>> = Vec::new();
    let ghost p0 = views(parts@);
    if !is_blank(&target) {
        parts.push(escape_chars(&target));
    }
    let ghost p1 = views(parts@);
    assert(p1 =~= p0 + (if trim(settings.target@).len() > 0 { seq![escape_seq(settings.target@)] } else { seq![] }));
    if !is_blank(&date) {
        parts.push(escape_chars(&date));
    }
    let ghost p2 = views(parts@);
    assert(p2 =~= p1 + (if trim(settings.date_str@).len() > 0 { seq![escape_seq(settings.date_str@)] } else { seq![] }));
    if settings.show_name_field && !is_answers {
        parts.push(chars_of("氏名\\ \\underline{\\hspace{5cm}}"));
    }
    assert(views(parts@) =~= p2 + (if settings.show_name_field && !is_answers { seq!["氏名\\ \\underline{\\hspace{5cm}}"@] } else { seq![] }));
    let mut out: Vec<char> = Vec::new();
    if parts.len() > 0 {
        push_str(&mut out, "\\begin{flushright}\n");
        let sep = chars_of(" \\quad ");
        let j = join_chars(&parts, &sep);
        push_all(&mut out, &j);
        push_str(&mut out, "\n\\end{flushright}");
    }
    assert(out@ =~= name_field(*settings, is_answers));
    out
}

fn replace_lit(d: Vec<char>, from: &str, to: &Vec<char>) -> (r: Vec<char>)
    ensures
        r@ == replace_all(d@, from@, to@),
{
    let f = chars_of(from);
    replace_chars(&d, &f, to)
}

fn filled_meta_exec(d: Vec<char>, is_answers: bool, project_name: &str, settings: &ProjectSettings, kind: Ghost<Seq<char>>) -> (r: Vec<char>)
    requires
        is_answers == (kind@ == "answers"@),
    ensures
        r@ == filled_meta(d@, kind@, project_name@, *settings),
{
    let title = or_else_exec(&settings.booklet_title, chars_of(project_name));
    let header_left = or_else_exec(&settings.header_left, title.clone());
    let header_right = or_else_exec(&settings.header_right, chars_of(settings.date_str.as_str()));
    let empty: Vec<char> = Vec::new();
    let at = chars_of("{{ANSWER_TITLE}}");
    let d6 = if is_answers && !contains_str(&d, "{{ANSWER_TITLE}}") {
        let x = replace_lit(d, "{{TITLE}}　解答", &at);
        replace_lit(x, "{{TITLE}} 解答", &at)
    } else {
        d
    };
    let answer_title = if settings.show_title {
        let mut t = escape_chars(&title);
        push_str(&mut t, "　解答");
        t
    } else {
        Vec::new()
    };
    let d7 = replace_lit(d6, "{{ANSWER_TITLE}}", &answer_title);
    let d8 = if settings.show_title {
        let et = escape_chars(&title);
        let st = escape_chars(&chars_of(settings.subtitle.as_str()));
        let x = replace_lit(d7, "{{TITLE}}", &et);
        replace_lit(x, "{{SUBTITLE}}", &st)
    } else {
        let x = replace_lit(d7, "{{TITLE}}", &empty);
        replace_lit(x, "{{SUBTITLE}}", &empty)
    };
    let d9 = if settings.show_header {
        let el = escape_chars(&header_left);
        let er = escape_chars(&header_right);
        let x = replace_lit(d8, "{{HEADER_LEFT}}", &el);
        replace_lit(x, "{{HEADER_RIGHT}}", &er)
    } else {
        let x = replace_lit(d8, "{{HEADER_LEFT}}", &empty);
        let x = replace_lit(x, "{{HEADER_RIGHT}}", &empty);
        if contains_str(&x, "fancyhdr") {
            let to = chars_of("\\fancyhead{}\\renewcommand{\\headrulewidth}{0pt}\n\\begin{document}");
            replace_lit(x, "\\begin{document}", &to)
        } else {
            x
        }
    };
    let et = escape_chars(&chars_of(settings.target.as_str()));
    let d10 = replace_lit(d9, "{{TARGET}}", &et);
    let ed = escape_chars(&chars_of(settings.date_str.as_str()));
    let d11 = replace_lit(d10, "{{DATE}}", &ed);
    let nf = name_field_exec(settings, is_answers);
    let d12 = replace_lit(d11, "{{NAME_FIELD}}", &nf);
    let np = chars_of("\\newpage");
    replace_lit(d12, "{{PAGE_BREAK}}", &np)
}

/// Fills a template with the rendered bodies and the document's meta data.
/// `kind`: "problems", "answers" or "combined" (problems followed by answers).
pub fn render_document(tpl: &str, kind: &str, project_name: &str, settings: &ProjectSettings, bodies: &Bodies) -> (r: String)
    ensures
        r@ == document(tpl@, kind@, project_name@, *settings, bodies@),
{
    let k = chars_of(kind);
    let is_answers = is_str(&k, "answers");
    let is_combined = is_str(&k, "combined");
    let t = chars_of(tpl);
    let main = main_body_exec(&t, is_answers, is_combined, settings, bodies, Ghost(kind@));
    let needs_box = contains_str(&main, "\\begin{tcolorbox}");
    let needs_skins = contains_str(&main, "enhanced");
    let d1 = match insert_at_markers(&t, &main) {
        Some(x) => x,
        None => t.clone(),
    };
    let toc = if settings.show_toc { chars_of("\\tableofcontents") } else { Vec::new() };
    let d2 = replace_lit(d1, "{{TOC}}", &toc);
    let body = chars_of(bodies.body.as_str());
    let body_ph = if is_answers && contains_str(&d2, "{{ANSWER_BODY}}") { body } else { main.clone() };
    let d3 = replace_lit(d2, "{{BODY}}", &body_ph);
    let ans = if is_answers { main.clone() } else { Vec::new() };
    let d4 = replace_lit(d3, "{{ANSWER_BODY}}", &ans);
    let ex = if is_answers { chars_of(bodies.explanation.as_str()) } else { Vec::new() };
    let d5 = replace_lit(d4, "{{EXPLANATION_BODY}}", &ex);
    assert(d5@ == placed_body(tpl@, kind@, *settings, bodies@));
    let d13 = filled_meta_exec(d5, is_answers, project_name, settings, Ghost(kind@));
    let out = ensure_tcolorbox_support(d13, needs_box, needs_skins);
    string_of(&out)
}

// ---------------------------------------------------------------------------
// Single-problem previews
// ---------------------------------------------------------------------------

/// `s` with every `{{NAME}}` of the given names removed.
pub open spec fn without_placeholders(s: Seq<char>, names: Seq<Seq<char>>) -> Seq<char>
    decreases names.len(),
{
    if names.len() == 0 {
        s
    } else {
        replace_all(without_placeholders(s, names.drop_last()), placeholder(names.last()), seq![])
    }
}

/// The preamble of a template: everything before `\begin{document}`; the
/// built-in problem template's where the template has none.
pub open spec fn preamble_of(tpl: Seq<char>) -> Seq<char> {
    match find(tpl, "\\begin{document}"@) {
        Some(p) => tpl.take(p),
        None => match find(DEFAULT_PROBLEM_TEMPLATE@, "\\begin{document}"@) {
            Some(p) => DEFAULT_PROBLEM_TEMPLATE@.take(p),
            None => DEFAULT_PROBLEM_TEMPLATE@,
        },
    }
}

/// A complete document for previewing one problem with a template's preamble.
pub open spec fn preview_doc(tpl: Seq<char>, statement: Seq<char>, answer: Seq<char>, explanation: Seq<char>) -> Seq<char> {
    without_placeholders(preamble_of(tpl), known_placeholders()) + "\\pagestyle{empty}\n\\begin{document}\n"@
        + statement + "\n"@ + (if trim(answer).len() > 0 {
        "\\par\\vspace{0.8em}\n\\noindent\\textbf{【解答】}\\par\n"@ + answer + "\n"@
    } else {
        seq![]
    }) + (if trim(explanation).len() > 0 {
        "\\par\\vspace{0.8em}\n\\noindent\\textbf{【解説】}\\par\n"@ + explanation + "\n"@
    } else {
        seq![]
    }) + "\\end{document}\n"@
}

fn preamble_exec(tpl: &Vec<char>) -> (r: Vec<char>)
    ensures
        r@ == preamble_of(tpl@),
{
    let b = chars_of("\\begin{document}");
    match find_first(tpl, &b) {
        Some(p) => {
            let r = slice_of(tpl, 0, p);
            assert(r@ =~= tpl@.take(p as int));
            r
        },
        None => {
            let d = chars_of(DEFAULT_PROBLEM_TEMPLATE);
            match find_first(&d, &b) {
                Some(p) => {
                    let r = slice_of(&d, 0, p);
                    assert(r@ =~= d@.take(p as int));
                    r
                },
                None => d,
            }
        },
    }
}

/// Builds a one-problem preview document from the template's preamble.
pub fn build_preview_doc(effective_template: &str, statement: &str, answer: &str, explanation: &str) -> (r: String)
    ensures
        r@ == preview_doc(effective_template@, statement@, answer@, explanation@),
{
    let t = chars_of(effective_template);
    let mut pre = preamble_exec(&t);
    let names = known_placeholder_names();
    let empty: Vec<char> = Vec::new();
    let ghost p0 = pre@;
    let mut k: usize = 0;
    while k < names.len()
        invariant
            k <= names.len(),
            views(names@) == known_placeholders(),
            empty@ == Seq::<char>::empty(),
            pre@ == without_placeholders(p0, views(names@).take(k as int)),
        decreases names.len() - k,
    {
        proof {
            assert(views(names@).take(k + 1).drop_last() =~= views(names@).take(k as int));
        }
        let mut ph = chars_of("{{");
        push_all(&mut ph, &names[k]);
        push_str(&mut ph, "}}");
        assert(ph@ =~= placeholder(views(names@)[k as int]));
        pre = replace_chars(&pre, &ph, &empty);
        k += 1;
    }
    assert(views(names@).take(names@.len() as int) =~= known_placeholders());
    let mut doc = pre;
    push_str(&mut doc, "\\pagestyle{empty}\n\\begin{document}\n");
    let sv = chars_of(statement);
    push_all(&mut doc, &sv);
    push_str(&mut doc, "\n");
    let av = chars_of(answer);
    if !is_blank(&av) {
        push_str(&mut doc, "\\par\\vspace{0.8em}\n\\noindent\\textbf{【解答】}\\par\n");
        push_all(&mut doc, &av);
        push_str(&mut doc, "\n");
    }
    let ev = chars_of(explanation);
    if !is_blank(&ev) {
        push_str(&mut doc, "\\par\\vspace{0.8em}\n\\noindent\\textbf{【解説】}\\par\n");
        push_all(&mut doc, &ev);
        push_str(&mut doc, "\n");
    }
    push_str(&mut doc, "\\end{document}\n");
    assert(doc@ =~= preview_doc(effective_template@, statement@, answer@, explanation@));
    string_of(&doc)
}

// ---------------------------------------------------------------------------
// Documents as stored
// ---------------------------------------------------------------------------

/// The template frozen with a document.
pub struct TplSnapshot {
    pub name: String,
    pub problem: String,
    pub answer: String,
    pub assets: Vec<SnapAttachment>,
    pub compile_method: String,
}

/// What a document renders from: its name, settings, items and template.
pub struct ProjectData {
    pub name: String,
    pub settings: ProjectSettings,
    pub items: Vec<ProjectItem>,
    pub tpl: TplSnapshot,
}

/// The template used for one booklet: its own, else the shared one, else the built-in one.
pub open spec fn chosen_template(own: Seq<char>, base: Seq<char>, builtin: Seq<char>) -> Seq<char> {
    effective(own, effective(base, builtin))
}

fn chosen_exec(own: String, base: &Vec<char>, builtin: &str) -> (r: String)
    ensures
        r@ == chosen_template(own@, base@, builtin@),
{
    let o = chars_of(own.as_str());
    if !is_blank(&o) {
        own
    } else if !is_blank(base) {
        string_of(base)
    } else {
        string_of(&chars_of(builtin))
    }
}

/// Freezes a template with a document, filling blank booklet templates from
/// the shared template and then from the built-in ones.
pub fn template_snapshot(name: String, base: &str, problem: String, answer: String, assets: Vec<SnapAttachment>, compile_method: String) -> (r: TplSnapshot)
    ensures
        r.name == name,
        r.problem@ == chosen_template(problem@, base@, DEFAULT_PROBLEM_TEMPLATE@),
        r.answer@ == chosen_template(answer@, base@, DEFAULT_ANSWER_TEMPLATE@),
        r.assets == assets,
        r.compile_method == compile_method,
{
    let b = chars_of(base);
    let problem = chosen_exec(problem, &b, DEFAULT_PROBLEM_TEMPLATE);
    let answer = chosen_exec(answer, &b, DEFAULT_ANSWER_TEMPLATE);
    TplSnapshot { name, problem, answer, assets, compile_method }
}

/// The template of a booklet kind: the answer template for answers, else the problem template.
pub open spec fn template_for(tpl: TplSnapshot, kind: Seq<char>) -> Seq<char> {
    if kind == "answers"@ {
        tpl.answer@
    } else {
        tpl.problem@
    }
}

/// The `.tex` of one booklet of a document.
pub open spec fn project_tex(data: ProjectData, kind: Seq<char>) -> Seq<char> {
    document(
        template_for(data.tpl, kind),
        kind,
        data.name@,
        data.settings,
        bodies_of(render_items(data.items@, data.settings)),
    )
}

/// Renders one booklet (`kind`: "problems", "answers" or "combined") of a loaded document.
pub fn generate_tex(data: &ProjectData, kind: &str) -> (r: String)
    ensures
        r@ == project_tex(*data, kind@),
{
    let bodies = render_bodies(data.items.as_slice(), &data.settings);
    let k = chars_of(kind);
    let tpl = if is_str(&k, "answers") { &data.tpl.answer } else { &data.tpl.problem };
    render_document(tpl.as_str(), kind, data.name.as_str(), &data.settings, &bodies)
}

/// The file name (without extension) under which a booklet is written.
pub open spec fn export_base(project_name: Seq<char>, kind: Seq<char>) -> Seq<char> {
    sanitized_name(project_name + "_"@ + booklet_suffix_spec(kind))
}

pub fn export_file_base(project_name: &str, kind: &str) -> (r: String)
    ensures
        r@ == export_base(project_name@, kind@),
{
    let mut v = chars_of(project_name);
    push_str(&mut v, "_");
    let suffix = booklet_suffix(kind);
    push_str(&mut v, suffix);
    let joined = string_of(&v);
    sanitize_filename(joined.as_str())
}

// ---------------------------------------------------------------------------
// Graph references
// ---------------------------------------------------------------------------

pub const GRAPH_PREFIX: &'static str = "assets/graphs/";

/// A path segment that cannot leave the graph folder: non-empty, not `.` or `..`, no drive colon.
pub open spec fn safe_segment(seg: Seq<char>) -> bool {
    seg.len() > 0 && seg != "."@ && seg != ".."@ && !seg.contains(':')
}

/// For a reference into the managed graph folder, the path below that folder,
/// `/`-separated; `None` where the reference points elsewhere or a segment could escape.
pub open spec fn managed_reference(reference: Seq<char>) -> Option<Seq<char>> {
    if !has_prefix(reference, GRAPH_PREFIX@) {
        None
    } else {
        let rest = reference.skip(GRAPH_PREFIX@.len() as int);
        let segs = split_on(rest, "/"@);
        if forall|k: int| 0 <= k < segs.len() ==> safe_segment(#[trigger] segs[k]) {
            Some(rest)
        } else {
            None
        }
    }
}

fn safe_segment_exec(seg: &Vec<char>) -> (b: bool)
    ensures
        b == safe_segment(seg@),
{
    if seg.len() == 0 || is_str(seg, ".") || is_str(seg, "..") {
        return false;
    }
    let mut k: usize = 0;
    while k < seg.len()
        invariant
            k <= seg.len(),
            forall|j: int| 0 <= j < k ==> seg@[j] != ':',
        decreases seg.len() - k,
    {
        if seg[k] == ':' {
            assert(seg@.contains(':'));
            return false;
        }
        k += 1;
    }
    true
}

/// The path below the managed graph folder that a LaTeX reference names, if it stays inside it.
pub fn managed_graph_reference(reference: &str) -> (r: Option<String>)
    ensures
        r matches Some(x) ==> managed_reference(reference@) == Some(x@),
        r is None ==> managed_reference(reference@) is None,
{
    let v = chars_of(reference);
    if !starts_with_str(&v, GRAPH_PREFIX) {
        return None;
    }
    let pl = chars_of(GRAPH_PREFIX);
    let rest = slice_of(&v, pl.len(), v.len());
    assert(rest@ =~= reference@.skip(GRAPH_PREFIX@.len() as int));
    let sep = chars_of("/");
    proof {
        reveal_strlit("/");
    }
    let segs = split_chars(&rest, &sep);
    let mut k: usize = 0;
    while k < segs.len()
        invariant
            k <= segs.len(),
            segs@.len() == split_on(rest@, "/"@).len(),
            rest@ == reference@.skip(GRAPH_PREFIX@.len() as int),
            has_prefix(reference@, GRAPH_PREFIX@),
            forall|i: int| 0 <= i < segs@.len() ==> #[trigger] segs@[i]@ == split_on(rest@, "/"@)[i],
            forall|j: int| 0 <= j < k ==> safe_segment(#[trigger] split_on(rest@, "/"@)[j]),
        decreases segs.len() - k,
    {
        if !safe_segment_exec(&segs[k]) {
            assert(!safe_segment(split_on(rest@, "/"@)[k as int]));
            return None;
        }
        k += 1;
    }
    Some(string_of(&rest))
}

// ---------------------------------------------------------------------------
// Laws
// ---------------------------------------------------------------------------

/// Law: a document file name is never empty and never holds a character that
/// file systems refuse.
pub proof fn lemma_sanitized_name_is_safe(s: Seq<char>)
    ensures
        sanitized_name(s).len() > 0,
        forall|k: int| 0 <= k < sanitized_name(s).len() ==> !is_unsafe_file_char(#[trigger] sanitized_name(s)[k]),
{
    let f = file_safe(s);
    let t = trim(f);
    crate::text::lemma_trim_start_skip(f);
    let a = trim_start(f);
    let i = choose|i: int| 0 <= i <= f.len() && a == f.skip(i);
    crate::text::lemma_trim_end_take(a);
    let j = choose|j: int| 0 <= j <= a.len() && t == a.take(j);
    assert forall|k: int| 0 <= k < t.len() implies !is_unsafe_file_char(#[trigger] t[k]) by {
        assert(t[k] == f[i + k]);
    }
    reveal_strlit("教材");
}

/// Law: text without LaTeX special characters is left as it is.
pub proof fn lemma_escape_plain(s: Seq<char>)
    requires
        forall|k: int| 0 <= k < s.len() ==> escape_char(#[trigger] s[k]) == seq![s[k]],
    ensures
        escape_seq(s) == s,
    decreases s.len(),
{
    if s.len() > 0 {
        lemma_escape_plain(s.drop_last());
        assert(escape_char(s[s.len() - 1]) == seq![s.last()]);
        assert(s.drop_last().push(s.last()) =~= s);
    }
}

/// Law: escaping distributes over concatenation, one character at a time.
pub proof fn lemma_escape_concat(a: Seq<char>, b: Seq<char>)
    ensures
        escape_seq(a + b) == escape_seq(a) + escape_seq(b),
    decreases b.len(),
{
    if b.len() > 0 {
        lemma_escape_concat(a, b.drop_last());
        assert((a + b).drop_last() =~= a + b.drop_last());
        assert((a + b).last() == b.last());
    } else {
        assert(a + b =~= a);
    }
}

// ---------------------------------------------------------------------------
// Graphics referenced by a document
// ---------------------------------------------------------------------------

/// The first position at or after `i` that is not white space.
pub open spec fn ws_end(t: Seq<char>, i: int) -> int
    decreases t.len() - i,
{
    if 0 <= i < t.len() && crate::text::is_ws(t[i]) {
        ws_end(t, i + 1)
    } else {
        i
    }
}

/// `\` turned into `/`.
pub open spec fn forward_slashes(s: Seq<char>) -> Seq<char> {
    s.map_values(|c: char| if c == '\\' { '/' } else { c })
}

/// `s` without its leading `./` (repeated).
pub open spec fn strip_dot_slash(s: Seq<char>) -> Seq<char>
    decreases s.len(),
{
    if has_prefix(s, "./"@) && s.len() >= 2 {
        strip_dot_slash(s.skip(2))
    } else {
        s
    }
}

/// A graphics path as compared: forward slashes, no leading `./`, ASCII lower case.
pub open spec fn graphics_path(s: Seq<char>) -> Seq<char> {
    crate::graphs::ascii_lower(strip_dot_slash(forward_slashes(s)))
}

pub const INCLUDEGRAPHICS: &'static str = "\\includegraphics";

/// The paths that `\includegraphics` commands name in `t`, scanning from `i`
/// (a starred form and one optional argument are skipped).
pub open spec fn graphics_refs_from(t: Seq<char>, i: int) -> Seq<Seq<char>>
    decreases t.len() - i,
{
    match find_from(t, INCLUDEGRAPHICS@, i) {
        Some(p) => if i <= p && p + 16 <= t.len() && INCLUDEGRAPHICS@.len() == 16 {
            let r = p + 16;
            let v0 = ws_end(t, r);
            let v1 = if 0 <= v0 < t.len() && t[v0] == '*' { ws_end(t, v0 + 1) } else { v0 };
            let v2 = if 0 <= v1 < t.len() && t[v1] == '[' {
                match find_from(t, "]"@, v1 + 1) {
                    Some(e) => if v1 < e < t.len() { Some(ws_end(t, e + 1)) } else { None },
                    None => None,
                }
            } else {
                Some(v1)
            };
            match v2 {
                None => graphics_refs_from(t, r),
                Some(v) => if 0 <= v < t.len() && t[v] == '{' {
                    match find_from(t, "}"@, v + 1) {
                        Some(e) => if v < e < t.len() && i < e {
                            let path = trim(t.subrange(v + 1, e));
                            (if path.len() > 0 { seq![graphics_path(path)] } else { seq![] }) + graphics_refs_from(t, e + 1)
                        } else {
                            graphics_refs_from(t, r)
                        },
                        None => graphics_refs_from(t, r),
                    }
                } else {
                    graphics_refs_from(t, r)
                },
            }
        } else {
            seq![]
        },
        None => seq![],
    }
}

fn ws_end_exec(t: &Vec<char>, i: usize) -> (r: usize)
    requires
        i <= t.len(),
    ensures
        r == ws_end(t@, i as int),
        i <= r <= t.len(),
{
    let mut k = i;
    while k < t.len() && crate::text::is_whitespace(t[k])
        invariant
            i <= k <= t.len(),
            ws_end(t@, i as int) == ws_end(t@, k as int),
        decreases t.len() - k,
    {
        k += 1;
    }
    k
}

pub(crate) fn graphics_path_exec(v: &Vec<char>) -> (r: Vec<char>)
    ensures
        r@ == graphics_path(v@),
{
    let mut f: Vec<char> = Vec::new();
    let mut i: usize = 0;
    while i < v.len()
        invariant
            i <= v.len(),
            f@ == forward_slashes(v@.take(i as int)),
        decreases v.len() - i,
    {
        f.push(if v[i] == '\\' { '/' } else { v[i] });
        assert(f@ =~= forward_slashes(v@.take(i + 1)));
        i += 1;
    }
    assert(v@.take(v@.len() as int) =~= v@);
    let mut k: usize = 0;
    assert(f@.skip(0) =~= f@);
    while k < f.len() && f.len() - k >= 2 && f[k] == '.' && f[k + 1] == '/'
        invariant
            k <= f.len(),
            strip_dot_slash(f@) == strip_dot_slash(f@.skip(k as int)),
        decreases f.len() - k,
    {
        proof {
            reveal_strlit("./");
            let s0 = f@.skip(k as int);
            assert(s0.take(2) =~= seq!['.', '/']);
            assert("./"@ =~= seq!['.', '/']);
            assert(s0.len() >= 2);
            assert(has_prefix(s0, "./"@));
            assert(strip_dot_slash(s0) == strip_dot_slash(s0.skip(2)));
            assert(s0.skip(2) =~= f@.skip(k + 2));
        }
        k += 2;
    }
    let rest = slice_of(&f, k, f.len());
    proof {
        reveal_strlit("./");
        assert(rest@ =~= f@.skip(k as int));
        if has_prefix(rest@, "./"@) && rest@.len() >= 2 {
            assert(rest@.take(2)[0] == rest@[0]);
            assert(rest@.take(2)[1] == rest@[1]);
            assert(f@[k as int] == rest@[0] && f@[k + 1] == rest@[1]);
        }
    }
    crate::graphs::ascii_lower_vec(&rest)
}

/// The graphics that a document's LaTeX references, as compared paths.
pub fn includegraphics_references(tex: &str) -> (r: Vec<String>)
    ensures
        r@.map_values(|x: String| x@) == graphics_refs_from(tex@, 0),
{
    let t = chars_of(tex);
    let cmd = chars_of(INCLUDEGRAPHICS);
    let rb = chars_of("]");
    let cb = chars_of("}");
    let mut out: Vec<String> = Vec::new();
    let mut i: usize = 0;
    while i <= t.len()
        invariant
            i <= t.len(),
            t@ == tex@,
            cmd@ == INCLUDEGRAPHICS@,
            rb@ == "]"@,
            cb@ == "}"@,
            graphics_refs_from(t@, 0) == out@.map_values(|x: String| x@) + graphics_refs_from(t@, i as int),
        decreases t.len() + 1 - i,
    {
        proof {
            reveal_strlit("\\includegraphics");
            reveal_strlit("]");
            reveal_strlit("}");
        }
        let p = match find_in(&t, &cmd, i) {
            Some(p) => p,
            None => {
                assert(out@.map_values(|x: String| x@) + seq![] =~= out@.map_values(|x: String| x@));
                return out;
            },
        };
        let r = p + 16;
        let v0 = ws_end_exec(&t, r);
        let v1 = if v0 < t.len() && t[v0] == '*' { ws_end_exec(&t, v0 + 1) } else { v0 };
        let v2: Option<usize> = if v1 < t.len() && t[v1] == '[' {
            match find_in(&t, &rb, v1 + 1) {
                Some(e) => Some(ws_end_exec(&t, e + 1)),
                None => None,
            }
        } else {
            Some(v1)
        };
        let mut next = r;
        match v2 {
            None => {},
            Some(v) => {
                if v < t.len() && t[v] == '{' {
                    match find_in(&t, &cb, v + 1) {
                        Some(e) => {
                            let path = trim_of(&slice_of(&t, v + 1, e));
                            let ghost before = out@.map_values(|x: String| x@);
                            if path.len() > 0 {
                                let g = graphics_path_exec(&path);
                                out.push(string_of(&g));
                                assert(out@.map_values(|x: String| x@) =~= before + seq![g@]);
                            } else {
                                assert(out@.map_values(|x: String| x@) =~= before + seq![]);
                            }
                            next = e + 1;
                        },
                        None => {},
                    }
                }
            },
        }
        i = next;
    }
    out
}


/// The template a preview is rendered with, given the stored shared and
/// problem templates of the template chosen (none where there is none): its
/// problem template, else its shared one, else the built-in one.
pub fn preview_template_text(row: Option<(String, String)>) -> (r: String)
    ensures
        r@ == match row {
            Some((base, problem)) => chosen_template(problem@, base@, DEFAULT_PROBLEM_TEMPLATE@),
            None => DEFAULT_PROBLEM_TEMPLATE@,
        },
{
    match row {
        Some((base, problem)) => chosen_exec(problem, &chars_of(base.as_str()), DEFAULT_PROBLEM_TEMPLATE),
        None => string_of(&chars_of(DEFAULT_PROBLEM_TEMPLATE)),
    }
}

pub const SAMPLE_STATEMENT_1: &'static str = "二次関数 $y = x^2 - 4x + 7$ を $y = a(x-p)^2 + q$ の形に変形し、頂点の座標を求めよ。";
pub const SAMPLE_ANSWER_1: &'static str = "$y = (x-2)^2 + 3$ より頂点は $(2,\\ 3)$。";
pub const SAMPLE_EXPLANATION_1: &'static str = "平方完成を行う。$x^2-4x = (x-2)^2 - 4$ の変形がポイント。";
pub const SAMPLE_STATEMENT_2: &'static str = "二次方程式 $x^2 + 2kx + k + 2 = 0$ が異なる2つの実数解をもつとき、定数 $k$ の値の範囲を求めよ。";
pub const SAMPLE_ANSWER_2: &'static str = "\\[ \\frac{D}{4} = k^2 - k - 2 = (k-2)(k+1) > 0 \\] より $k < -1,\\ 2 < k$。";
pub const SAMPLE_EXPLANATION_2: &'static str = "$D/4$ を使うと計算が簡単になる。";

/// A sample problem as a document holds it.
pub open spec fn is_sample_problem(i: ProjectItem, statement: Seq<char>, answer: Seq<char>, explanation: Seq<char>) -> bool {
    &&& i.item_type@ == "problem"@
    &&& i.content@.len() == 0
    &&& i.heading_level == 1
    &&& i.heading_numbered
    &&& i.snap_statement@ == statement
    &&& i.snap_answer@ == answer
    &&& i.snap_explanation@ == explanation
    &&& crate::models::opt_string_view(i.snap_difficulty_rank) == Some("B"@)
    &&& !i.snap_is_required
    &&& i.snap_part_type@.len() == 0
    &&& i.snap_part_output_target@ == "both"@
}

fn sample_problem(statement: &str, answer: &str, explanation: &str) -> (r: ProjectItem)
    ensures
        is_sample_problem(r, statement@, answer@, explanation@),
{
    ProjectItem {
        item_type: string_of(&chars_of("problem")),
        content: String::new(),
        heading_level: 1,
        heading_numbered: true,
        snap_statement: string_of(&chars_of(statement)),
        snap_answer: string_of(&chars_of(answer)),
        snap_explanation: string_of(&chars_of(explanation)),
        snap_difficulty_rank: Some(string_of(&chars_of("B"))),
        snap_is_required: false,
        snap_part_type: String::new(),
        snap_part_output_target: string_of(&chars_of("both")),
    }
}

/// The two sample problems a template is tried out with.
pub fn sample_items() -> (r: Vec<ProjectItem>)
    ensures
        r.len() == 2,
        is_sample_problem(r@[0], SAMPLE_STATEMENT_1@, SAMPLE_ANSWER_1@, SAMPLE_EXPLANATION_1@),
        is_sample_problem(r@[1], SAMPLE_STATEMENT_2@, SAMPLE_ANSWER_2@, SAMPLE_EXPLANATION_2@),
{
    let mut r: Vec<ProjectItem> = Vec::new();
    r.push(sample_problem(SAMPLE_STATEMENT_1, SAMPLE_ANSWER_1, SAMPLE_EXPLANATION_1));
    r.push(sample_problem(SAMPLE_STATEMENT_2, SAMPLE_ANSWER_2, SAMPLE_EXPLANATION_2));
    r
}

/// The settings a template is tried out with, dated as given.
pub open spec fn is_sample_settings(r: ProjectSettings, date_str: String) -> bool {
    &&& r.booklet_title@ == "テンプレートプレビュー"@
    &&& r.subtitle@ == "サンプル教材データ"@
    &&& r.target@ == "高1"@
    &&& r.date_str == date_str
    &&& r.header_left@.len() == 0
    &&& r.header_right@.len() == 0
    &&& r.number_format@ == "問題{n}"@
    &&& r.show_name_field && r.auto_number && !r.page_break_per_problem && r.include_explanation
    &&& r.two_column_mode@ == "none"@
    &&& r.show_title && r.show_header && !r.show_toc && !r.number_headings
    &&& r.include_statement_in_answers && !r.box_statement_in_answers && r.reset_numbering_per_chapter
    &&& r.difficulty_display@ == "number_side"@
    &&& r.required_display@ == "required_only"@
}

pub fn sample_settings(date_str: String) -> (r: ProjectSettings)
    ensures
        is_sample_settings(r, date_str),
{
    ProjectSettings {
        booklet_title: string_of(&chars_of("テンプレートプレビュー")),
        subtitle: string_of(&chars_of("サンプル教材データ")),
        target: string_of(&chars_of("高1")),
        date_str,
        header_left: String::new(),
        header_right: String::new(),
        number_format: string_of(&chars_of("問題{n}")),
        show_name_field: true,
        auto_number: true,
        page_break_per_problem: false,
        include_explanation: true,
        two_column_mode: string_of(&chars_of("none")),
        show_title: true,
        show_header: true,
        show_toc: false,
        number_headings: false,
        include_statement_in_answers: true,
        box_statement_in_answers: false,
        reset_numbering_per_chapter: true,
        difficulty_display: string_of(&chars_of("number_side")),
        required_display: string_of(&chars_of("required_only")),
    }
}


/// The name a template is tried out under.
pub const SAMPLE_NAME: &'static str = "テンプレートプレビュー";

/// The booklet a template is tried out with: the sample problems and
/// settings in the template's booklet of that kind.
pub fn template_test_tex(base: &str, problem: String, answer: String, kind: &str, date_str: String) -> (r: String)
    ensures
        exists|data: ProjectData| {
            &&& data.name@ == SAMPLE_NAME@
            &&& data.tpl.problem@ == chosen_template(problem@, base@, DEFAULT_PROBLEM_TEMPLATE@)
            &&& data.tpl.answer@ == chosen_template(answer@, base@, DEFAULT_ANSWER_TEMPLATE@)
            &&& data.items@.len() == 2
            &&& is_sample_problem(data.items@[0], SAMPLE_STATEMENT_1@, SAMPLE_ANSWER_1@, SAMPLE_EXPLANATION_1@)
            &&& is_sample_problem(data.items@[1], SAMPLE_STATEMENT_2@, SAMPLE_ANSWER_2@, SAMPLE_EXPLANATION_2@)
            &&& is_sample_settings(data.settings, date_str)
            &&& r@ == project_tex(data, kind@)
        },
{
    let tpl = template_snapshot(string_of(&chars_of(SAMPLE_NAME)), base, problem, answer, Vec::new(), String::new());
    let data = ProjectData {
        name: string_of(&chars_of(SAMPLE_NAME)),
        settings: sample_settings(date_str),
        items: sample_items(),
        tpl,
    };
    let r = generate_tex(&data, kind);
    proof {
        reveal_strlit("テンプレートプレビュー");
    }
    r
}

} // verus!
