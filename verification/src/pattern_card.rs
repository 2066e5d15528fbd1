//! Rendering a pattern snapshot as a tcolorbox card.
//!
//! Only the title and the candidate strategies reach the card; one candidate is
//! set as plain text, several become items of an itemize list.
use vstd::prelude::*;
use crate::models::{PatternSnapshot, PatternStrategyInput, SnapshotView};
use crate::text::{
    chars_of, ends_with_str, slice_of, has_prefix, has_suffix, lines, lines_of, push_all, push_str,
    starts_with_str, string_of, trim, trim_end, trim_end_of, trim_of, trim_start, trim_start_of,
    views,
};

verus! {

// ---------------------------------------------------------------------------
// Specification
// ---------------------------------------------------------------------------

/// Repeats `c` `n` times.
pub open spec fn repeat_char(c: char, n: nat) -> Seq<char>
    decreases n,
{
    if n == 0 {
        seq![]
    } else {
        repeat_char(c, (n - 1) as nat).push(c)
    }
}

/// Drops unmatched closing braces, turns line breaks into spaces and closes
/// the braces still open at the end (`depth` of them are open before `s`).
pub open spec fn balance_braces(s: Seq<char>, depth: nat) -> Seq<char>
    decreases s.len(),
{
    if s.len() == 0 {
        repeat_char('}', depth)
    } else {
        let c = s[0];
        let rest = s.drop_first();
        if c == '{' {
            seq![c] + balance_braces(rest, depth + 1)
        } else if c == '}' {
            if depth > 0 {
                seq![c] + balance_braces(rest, (depth - 1) as nat)
            } else {
                balance_braces(rest, depth)
            }
        } else if c == '\n' || c == '\r' {
            seq![' '] + balance_braces(rest, depth)
        } else {
            seq![c] + balance_braces(rest, depth)
        }
    }
}

/// The card title: braces repaired so that it can stand inside `title={...}`.
pub open spec fn card_title(source: Seq<char>) -> Seq<char> {
    trim(balance_braces(trim(source), 0))
}

/// Lines that are not blank.
pub open spec fn non_empty_lines(ls: Seq<Seq<char>>) -> Seq<Seq<char>>
    decreases ls.len(),
{
    if ls.len() == 0 {
        seq![]
    } else if ls.last().len() == 0 {
        non_empty_lines(ls.drop_last())
    } else {
        non_empty_lines(ls.drop_last()).push(ls.last())
    }
}

pub open spec fn trim_each(ls: Seq<Seq<char>>) -> Seq<Seq<char>> {
    ls.map_values(|l: Seq<char>| trim(l))
}

/// The lines of `source`, trimmed, blank ones left out.
pub open spec fn text_lines_spec(source: Seq<char>) -> Seq<Seq<char>> {
    non_empty_lines(trim_each(lines(source)))
}

pub open spec fn starts_display(line: Seq<char>) -> bool {
    has_prefix(trim_start(line), "\\["@)
}

pub open spec fn ends_display(line: Seq<char>) -> bool {
    has_suffix(trim_end(line), "\\]"@)
}

/// Lines of one item joined by line breaks; `\\` ends a line unless a display
/// formula starts on the next line or ends on this one.
pub open spec fn join_item(ls: Seq<Seq<char>>, indent: Seq<char>) -> Seq<char>
    decreases ls.len(),
{
    if ls.len() == 0 {
        seq![]
    } else if ls.len() == 1 {
        ls[0]
    } else {
        let prev = ls[ls.len() - 2];
        let cur = ls.last();
        join_item(ls.drop_last(), indent) + (if !starts_display(cur) && !ends_display(prev) {
            "\\\\"@
        } else {
            seq![]
        }) + "\n"@ + indent + cur
    }
}

/// The lines of a candidate: its title, then the non-blank lines of its
/// description; none when the title is blank.
pub open spec fn strategy_entry(st: PatternStrategyInput) -> Option<Seq<Seq<char>>> {
    let title = trim(st.title@);
    if title.len() == 0 {
        None
    } else {
        Some(seq![title] + text_lines_spec(st.description@))
    }
}

pub open spec fn card_entries(sts: Seq<PatternStrategyInput>) -> Seq<Seq<Seq<char>>>
    decreases sts.len(),
{
    if sts.len() == 0 {
        seq![]
    } else {
        match strategy_entry(sts.last()) {
            Some(e) => card_entries(sts.drop_last()).push(e),
            None => card_entries(sts.drop_last()),
        }
    }
}

pub open spec fn itemize_lengths() -> Seq<char> {
    "  \\setlength{\\itemsep}{5pt}\n  \\setlength{\\parskip}{0pt}\n  \\setlength{\\itemindent}{0pt}\n  \\setlength{\\labelsep}{5pt}\n"@
}

pub open spec fn card_items(entries: Seq<Seq<Seq<char>>>) -> Seq<char>
    decreases entries.len(),
{
    if entries.len() == 0 {
        seq![]
    } else {
        card_items(entries.drop_last()) + "  \\item "@ + join_item(entries.last(), "  "@) + "\n"@
    }
}

pub open spec fn card_body(entries: Seq<Seq<Seq<char>>>) -> Seq<char> {
    if entries.len() == 0 {
        seq![]
    } else if entries.len() == 1 {
        "  "@ + join_item(entries[0], "  "@) + "\n"@
    } else {
        "  \\begin{itemize}\n"@ + itemize_lengths() + card_items(entries) + "  \\end{itemize}\n"@
    }
}

pub open spec fn title_option(title: Seq<char>) -> Seq<char> {
    if title.len() == 0 {
        seq![]
    } else {
        "[title={"@ + title + "}]"@
    }
}

/// The whole card of a snapshot.
pub open spec fn pattern_card(snapshot: SnapshotView) -> Seq<char> {
    "\\begin{tcolorbox}"@ + title_option(card_title(snapshot.title)) + "\n"@ + card_body(
        card_entries(snapshot.strategies),
    ) + "\\end{tcolorbox}\n"@
}

// ---------------------------------------------------------------------------
// Implementation
// ---------------------------------------------------------------------------

pub fn title_text_chars(source: &Vec<char>) -> (r: Vec<char>)
    ensures
        r@ == card_title(source@),
{
    let s = trim_of(source);
    let mut out: Vec<char> = Vec::new();
    let mut depth: usize = 0;
    let mut i: usize = 0;
    assert(s@.skip(0) =~= s@);
    while i < s.len()
        invariant
            i <= s.len(),
            depth <= i,
            balance_braces(s@, 0) == out@ + balance_braces(s@.skip(i as int), depth as nat),
        decreases s.len() - i,
    {
        let c = s[i];
        let ghost rest = s@.skip(i as int);
        assert(rest.drop_first() =~= s@.skip(i + 1));
        assert(rest[0] == c);
        if c == '{' {
            out.push(c);
            depth += 1;
        } else if c == '}' {
            if depth > 0 {
                out.push(c);
                depth -= 1;
            }
        } else if c == '\n' || c == '\r' {
            out.push(' ');
        } else {
            out.push(c);
        }
        i += 1;
        proof {
            assert(out@ + balance_braces(s@.skip(i as int), depth as nat) =~= balance_braces(s@, 0));
        }
    }
    let ghost pre = out@;
    let mut k: usize = 0;
    while k < depth
        invariant
            k <= depth,
            out@ == pre + repeat_char('}', k as nat),
        decreases depth - k,
    {
        out.push('}');
        k += 1;
        assert(out@ =~= pre + repeat_char('}', k as nat));
    }
    assert(s@.skip(i as int) =~= seq![]);
    trim_of(&out)
}

/// The card title of `source`.
pub fn title_text(source: &str) -> (r: String)
    ensures
        r@ == card_title(source@),
{
    let v = chars_of(source);
    let t = title_text_chars(&v);
    string_of(&t)
}

pub fn text_lines_chars(source: &Vec<char>) -> (r: Vec<Vec<char>>)
    ensures
        views(r@) == text_lines_spec(source@),
{
    let ls = lines_of(source);
    let ghost lv = lines(source@);
    let mut out: Vec<Vec<char>> = Vec::new();
    let mut i: usize = 0;
    while i < ls.len()
        invariant
            i <= ls.len(),
            ls@.len() == lv.len(),
            forall|j: int| 0 <= j < ls@.len() ==> #[trigger] ls@[j]@ == lv[j],
            views(out@) == non_empty_lines(trim_each(lv).take(i as int)),
        decreases ls.len() - i,
    {
        let t = trim_of(&ls[i]);
        proof {
            assert(trim_each(lv).take(i + 1).drop_last() =~= trim_each(lv).take(i as int));
            assert(trim_each(lv).take(i + 1).last() == t@);
        }
        if t.len() > 0 {
            out.push(t);
            assert(views(out@) =~= non_empty_lines(trim_each(lv).take(i as int)).push(t@));
        }
        i += 1;
    }
    assert(trim_each(lv).take(ls@.len() as int) =~= trim_each(lv));
    out
}

/// The non-blank, trimmed lines of `source`.
pub fn text_lines(source: &str) -> (r: Vec<String>)
    ensures
        r@.len() == text_lines_spec(source@).len(),
        forall|i: int| 0 <= i < r@.len() ==> #[trigger] r@[i]@ == text_lines_spec(source@)[i],
{
    let v = chars_of(source);
    let ls = text_lines_chars(&v);
    let mut out: Vec<String> = Vec::new();
    let mut i: usize = 0;
    while i < ls.len()
        invariant
            i <= ls.len(),
            views(ls@) == text_lines_spec(source@),
            out@.len() == i,
            forall|j: int| 0 <= j < i ==> #[trigger] out@[j]@ == text_lines_spec(source@)[j],
        decreases ls.len() - i,
    {
        let s = string_of(&ls[i]);
        assert(views(ls@)[i as int] == ls@[i as int]@);
        out.push(s);
        i += 1;
    }
    out
}

pub fn starts_display_chars(line: &Vec<char>) -> (b: bool)
    ensures
        b == starts_display(line@),
{
    let t = trim_start_of(line);
    starts_with_str(&t, "\\[")
}

pub fn ends_display_chars(line: &Vec<char>) -> (b: bool)
    ensures
        b == ends_display(line@),
{
    let t = trim_end_of(line);
    ends_with_str(&t, "\\]")
}

pub fn join_item_lines_chars(ls: &Vec<Vec<char>>, indent: &Vec<char>) -> (r: Vec<char>)
    ensures
        r@ == join_item(views(ls@), indent@),
{
    let mut out: Vec<char> = Vec::new();
    let mut i: usize = 0;
    while i < ls.len()
        invariant
            i <= ls.len(),
            out@ == join_item(views(ls@).take(i as int), indent@),
        decreases ls.len() - i,
    {
        let ghost pre = views(ls@).take(i as int);
        let ghost cur = views(ls@).take(i + 1);
        proof {
            assert(cur.drop_last() =~= pre);
            assert(cur.last() == ls@[i as int]@);
        }
        if i > 0 {
            proof {
                assert(cur[cur.len() - 2] == ls@[i - 1]@);
            }
            if !starts_display_chars(&ls[i]) && !ends_display_chars(&ls[i - 1]) {
                push_str(&mut out, "\\\\");
            } else {
                assert(out@ + seq![] =~= out@);
            }
            push_str(&mut out, "\n");
            push_all(&mut out, indent);
        } else {
            assert(cur =~= seq![ls@[0]@]);
        }
        push_all(&mut out, &ls[i]);
        i += 1;
    }
    assert(views(ls@).take(ls@.len() as int) =~= views(ls@));
    out
}

/// The lines of one item joined as the card sets them.
pub fn join_item_lines(ls: &Vec<String>, indent: &str) -> (r: String)
    ensures
        r@ == join_item(ls@.map_values(|l: String| l@), indent@),
{
    let mut v: Vec<Vec<char>> = Vec::new();
    let mut i: usize = 0;
    while i < ls.len()
        invariant
            i <= ls.len(),
            views(v@) =~= ls@.map_values(|l: String| l@).take(i as int),
        decreases ls.len() - i,
    {
        let c = chars_of(ls[i].as_str());
        let ghost pv = views(v@);
        v.push(c);
        assert(views(v@) =~= pv.push(c@));
        assert(ls@.map_values(|l: String| l@).take(i + 1) =~= ls@.map_values(|l: String| l@).take(i as int).push(ls@[i as int]@));
        i += 1;
    }
    let ind = chars_of(indent);
    let r = join_item_lines_chars(&v, &ind);
    assert(ls@.map_values(|l: String| l@).take(ls@.len() as int) =~= ls@.map_values(|l: String| l@));
    string_of(&r)
}

pub fn entry_lines_chars(entry: &PatternStrategyInput) -> (r: Option<Vec<Vec<char>>>)
    ensures
        match strategy_entry(*entry) {
            Some(e) => r is Some && views(r->0@) == e,
            None => r is None,
        },
{
    let t0 = chars_of(entry.title.as_str());
    let title = trim_of(&t0);
    if title.len() == 0 {
        return None;
    }
    let d = chars_of(entry.description.as_str());
    let rest = text_lines_chars(&d);
    let mut out: Vec<Vec<char>> = Vec::new();
    out.push(title);
    let mut i: usize = 0;
    while i < rest.len()
        invariant
            i <= rest.len(),
            views(out@) =~= seq![trim(entry.title@)] + views(rest@).take(i as int),
        decreases rest.len() - i,
    {
        let c = slice_of(&rest[i], 0, rest[i].len());
        assert(c@ =~= rest@[i as int]@);
        let ghost pv = views(out@);
        out.push(c);
        assert(views(out@) =~= pv.push(c@));
        assert(views(rest@).take(i + 1) =~= views(rest@).take(i as int).push(rest@[i as int]@));
        i += 1;
    }
    assert(views(rest@).take(rest@.len() as int) =~= views(rest@));
    Some(out)
}

/// The lines of one candidate, or none when its title is blank.
pub fn entry_lines(entry: &PatternStrategyInput) -> (r: Option<Vec<String>>)
    ensures
        match strategy_entry(*entry) {
            Some(e) => r is Some && r->0@.map_values(|l: String| l@) == e,
            None => r is None,
        },
{
    match entry_lines_chars(entry) {
        None => None,
        Some(v) => {
            let mut out: Vec<String> = Vec::new();
            let mut i: usize = 0;
            while i < v.len()
                invariant
                    i <= v.len(),
                    out@.map_values(|l: String| l@) =~= views(v@).take(i as int),
                decreases v.len() - i,
            {
                let c = string_of(&v[i]);
                let ghost pv = out@.map_values(|l: String| l@);
                out.push(c);
                assert(out@.map_values(|l: String| l@) =~= pv.push(c@));
                assert(views(v@).take(i + 1) =~= views(v@).take(i as int).push(v@[i as int]@));
                i += 1;
            }
            assert(views(v@).take(v@.len() as int) =~= views(v@));
            Some(out)
        },
    }
}

pub fn card_chars(snapshot: &PatternSnapshot) -> (r: Vec<char>)
    ensures
        r@ == pattern_card(snapshot@),
{
    let t = chars_of(snapshot.title.as_str());
    let title = title_text_chars(&t);
    let mut out: Vec<char> = Vec::new();
    push_str(&mut out, "\\begin{tcolorbox}");
    if title.len() > 0 {
        push_str(&mut out, "[title={");
        push_all(&mut out, &title);
        push_str(&mut out, "}]");
    }
    push_str(&mut out, "\n");
    assert(out@ =~= "\\begin{tcolorbox}"@ + title_option(card_title(snapshot.title@)) + "\n"@);
    let ghost head = out@;

    // Entries of the candidates with a non-blank title.
    let sts = &snapshot.strategies;
    let mut entries: Vec<Vec<Vec<char>>> = Vec::new();
    let mut i: usize = 0;
    while i < sts.len()
        invariant
            i <= sts.len(),
            entries@.len() == card_entries(sts@.take(i as int)).len(),
            forall|j: int| 0 <= j < entries@.len() ==> views(#[trigger] entries@[j]@) == card_entries(sts@.take(i as int))[j],
        decreases sts.len() - i,
    {
        let e = entry_lines_chars(&sts[i]);
        proof {
            assert(sts@.take(i + 1).drop_last() =~= sts@.take(i as int));
            assert(sts@.take(i + 1).last() == sts@[i as int]);
        }
        match e {
            Some(lines) => {
                entries.push(lines);
            },
            None => {},
        }
        i += 1;
    }
    assert(sts@.take(sts@.len() as int) =~= sts@);
    let ghost ents = card_entries(sts@);
    let indent = chars_of("  ");
    if entries.len() == 1 {
        let joined = join_item_lines_chars(&entries[0], &indent);
        push_str(&mut out, "  ");
        push_all(&mut out, &joined);
        push_str(&mut out, "\n");
    } else if entries.len() > 1 {
        push_str(&mut out, "  \\begin{itemize}\n");
        push_str(&mut out, "  \\setlength{\\itemsep}{5pt}\n  \\setlength{\\parskip}{0pt}\n  \\setlength{\\itemindent}{0pt}\n  \\setlength{\\labelsep}{5pt}\n");
        let ghost mid = out@;
        let mut k: usize = 0;
        while k < entries.len()
            invariant
                k <= entries.len(),
                entries@.len() == ents.len(),
                forall|j: int| 0 <= j < entries@.len() ==> views(#[trigger] entries@[j]@) == ents[j],
                indent@ == "  "@,
                out@ == mid + card_items(ents.take(k as int)),
            decreases entries.len() - k,
        {
            let joined = join_item_lines_chars(&entries[k], &indent);
            proof {
                assert(ents.take(k + 1).drop_last() =~= ents.take(k as int));
                assert(ents.take(k + 1).last() == ents[k as int]);
            }
            push_str(&mut out, "  \\item ");
            push_all(&mut out, &joined);
            push_str(&mut out, "\n");
            k += 1;
        }
        assert(ents.take(ents.len() as int) =~= ents);
        push_str(&mut out, "  \\end{itemize}\n");
    }
    push_str(&mut out, "\\end{tcolorbox}\n");
    proof {
        if ents.len() == 0 {
            assert(card_body(ents) =~= seq![]);
        }
        assert(out@ =~= pattern_card(snapshot@));
    }
    out
}

/// The card of a snapshot, ready to paste into an explanation, part or booklet.
pub fn render_pattern_card(snapshot: &PatternSnapshot) -> (r: String)
    ensures
        r@ == pattern_card(snapshot@),
{
    let v = card_chars(snapshot);
    string_of(&v)
}

/// The card of a snapshot; which candidates a solution used is kept as data
/// only and never changes the card.
pub fn render_pattern_card_with_usage(snapshot: &PatternSnapshot, used_strategy_ids: &[i64]) -> (r: String)
    ensures
        r@ == pattern_card(snapshot@),
{
    render_pattern_card(snapshot)
}


/// The card of a stored pattern at its current version, as pasted into
/// explanations, parts and booklets; the pattern itself is not changed.
pub fn pattern_card_latex(snapshot: &PatternSnapshot) -> (r: String)
    ensures
        r@ == pattern_card(snapshot@),
{
    render_pattern_card(snapshot)
}

} // verus!
