//! Reusable parts: their kinds, where they are printed and their one-line previews.
use vstd::prelude::*;
use crate::text::{lemma_trim_idempotent, lemma_trim_unpadded, chars_of, is_str, join, join_chars, lines, lines_of, string_of, trim, trim_of, views};

verus! {

/// The kinds of part that the editor offers.
pub open spec fn part_types() -> Seq<Seq<char>> {
    seq![
        "heading"@,
        "text"@,
        "notice"@,
        "hint"@,
        "example"@,
        "homework"@,
        "reflection"@,
        "box"@,
        "table"@,
        "image_block"@,
        "latex_snippet"@,
        "page_break"@,
        "custom"@,
    ]
}

/// A part kind as stored: the trimmed kind where it is known, else `custom`.
pub open spec fn part_type_of(t: Seq<char>) -> Seq<char> {
    if part_types().contains(trim(t)) {
        trim(t)
    } else {
        "custom"@
    }
}

pub fn normalize_part_type(part_type: &str) -> (r: String)
    ensures
        r@ == part_type_of(part_type@),
{
    let v = trim_of(&chars_of(part_type));
    let known = is_str(&v, "heading") || is_str(&v, "text") || is_str(&v, "notice") || is_str(&v, "hint")
        || is_str(&v, "example") || is_str(&v, "homework") || is_str(&v, "reflection") || is_str(&v, "box")
        || is_str(&v, "table") || is_str(&v, "image_block") || is_str(&v, "latex_snippet") || is_str(
        &v,
        "page_break",
    ) || is_str(&v, "custom");
    proof {
        let ts = part_types();
        assert(ts[0] == "heading"@ && ts[1] == "text"@ && ts[2] == "notice"@ && ts[3] == "hint"@);
        assert(ts[4] == "example"@ && ts[5] == "homework"@ && ts[6] == "reflection"@ && ts[7] == "box"@);
        assert(ts[8] == "table"@ && ts[9] == "image_block"@ && ts[10] == "latex_snippet"@);
        assert(ts[11] == "page_break"@ && ts[12] == "custom"@);
        if ts.contains(v@) {
            let k = choose|k: int| 0 <= k < ts.len() && ts[k] == v@;
            assert(known);
        }
    }
    if known {
        string_of(&v)
    } else {
        string_of(&chars_of("custom"))
    }
}

/// Where a part is printed, as stored: `problems`, `answers`, `both` or `none`;
/// anything else means both booklets.
pub open spec fn output_target_of(t: Seq<char>) -> Seq<char> {
    let v = trim(t);
    if v == "problems"@ || v == "answers"@ || v == "both"@ || v == "none"@ {
        v
    } else {
        "both"@
    }
}

pub fn normalize_output_target(target: &str) -> (r: String)
    ensures
        r@ == output_target_of(target@),
{
    let v = trim_of(&chars_of(target));
    if is_str(&v, "problems") || is_str(&v, "answers") || is_str(&v, "both") || is_str(&v, "none") {
        string_of(&v)
    } else {
        string_of(&chars_of("both"))
    }
}

/// A part's layout as stored: `two_column`, else `single_column`.
pub open spec fn layout_mode_of(m: Seq<char>) -> Seq<char> {
    if trim(m) == "two_column"@ {
        "two_column"@
    } else {
        "single_column"@
    }
}

pub fn normalize_layout_mode(layout_mode: &str) -> (r: String)
    ensures
        r@ == layout_mode_of(layout_mode@),
{
    let v = trim_of(&chars_of(layout_mode));
    if is_str(&v, "two_column") {
        string_of(&chars_of("two_column"))
    } else {
        string_of(&chars_of("single_column"))
    }
}

/// The non-blank lines of `s`, trimmed.
pub open spec fn trimmed_lines(ls: Seq<Seq<char>>) -> Seq<Seq<char>>
    decreases ls.len(),
{
    if ls.len() == 0 {
        seq![]
    } else {
        let t = trim(ls.last());
        trimmed_lines(ls.drop_last()) + (if t.len() > 0 { seq![t] } else { seq![] })
    }
}

/// A one-line preview: the non-blank lines trimmed and joined by spaces, cut at 180 characters.
pub open spec fn preview_of(source: Seq<char>) -> Seq<char> {
    let j = join(trimmed_lines(lines(source)), " "@);
    if j.len() <= 180 {
        j
    } else {
        j.take(180)
    }
}

pub fn plain_preview(source: &str) -> (r: String)
    ensures
        r@ == preview_of(source@),
{
    let src = chars_of(source);
    let ls = lines_of(&src);
    assert(views(ls@) =~= lines(source@));
    let mut kept: Vec<Vec<char>> = Vec::new();
    let mut i: usize = 0;
    while i < ls.len()
        invariant
            i <= ls.len(),
            views(kept@) == trimmed_lines(views(ls@).take(i as int)),
        decreases ls.len() - i,
    {
        proof {
            assert(views(ls@).take(i + 1).drop_last() =~= views(ls@).take(i as int));
        }
        let t = trim_of(&ls[i]);
        let ghost before = views(kept@);
        if t.len() > 0 {
            kept.push(t);
            assert(views(kept@) =~= before + seq![t@]);
        } else {
            assert(views(kept@) =~= before + seq![]);
        }
        i += 1;
    }
    assert(views(ls@).take(ls@.len() as int) =~= views(ls@));
    let sep = chars_of(" ");
    let j = join_chars(&kept, &sep);
    if j.len() <= 180 {
        string_of(&j)
    } else {
        let mut out: Vec<char> = Vec::new();
        let mut k: usize = 0;
        while k < 180
            invariant
                k <= 180,
                180 < j.len(),
                out@ == j@.take(k as int),
            decreases 180 - k,
        {
            out.push(j[k]);
            assert(out@ =~= j@.take(k + 1));
            k += 1;
        }
        string_of(&out)
    }
}

/// Law: normalising an output target a second time changes nothing.
pub proof fn lemma_output_target_idempotent(t: Seq<char>)
    ensures
        output_target_of(output_target_of(t)) == output_target_of(t),
{
    lemma_trim_idempotent(t);
    reveal_strlit("both");
    lemma_trim_unpadded("both"@);
}

/// Law: normalising a layout mode a second time changes nothing.
pub proof fn lemma_layout_mode_idempotent(m: Seq<char>)
    ensures
        layout_mode_of(layout_mode_of(m)) == layout_mode_of(m),
{
    reveal_strlit("two_column");
    reveal_strlit("single_column");
    lemma_trim_unpadded("two_column"@);
    lemma_trim_unpadded("single_column"@);
}

/// Law: normalising a part kind a second time changes nothing.
pub proof fn lemma_part_type_idempotent(t: Seq<char>)
    ensures
        part_type_of(part_type_of(t)) == part_type_of(t),
{
    lemma_trim_idempotent(t);
    reveal_strlit("custom");
    lemma_trim_unpadded("custom"@);
    assert(part_types()[12] == "custom"@);
}


/// The title a new part is stored under: the trimmed title, or `新しい部品` where it is blank.
pub open spec fn new_part_title(title: Seq<char>) -> Seq<char> {
    if trim(title).len() == 0 { "新しい部品"@ } else { trim(title) }
}

pub fn part_title(title: &str) -> (r: String)
    ensures
        r@ == new_part_title(title@),
{
    let t = trim_of(&chars_of(title));
    if t.len() == 0 {
        string_of(&chars_of("新しい部品"))
    } else {
        string_of(&t)
    }
}

} // verus!
