//! Which image of a name the PDF driver measures. Images that differ only in
//! their extension share one bounding-box file, so of each such group one is
//! chosen: the one the LaTeX names, else the one of the preferred format.
use vstd::prelude::*;
use crate::graph_integration::{extension_exec, extension_of};
use crate::latex::{graphics_path, graphics_path_exec, graphics_refs_from, includegraphics_references};
use crate::text::{chars_of, eq_chars, is_str, join, join_chars, push_all, string_of, views};

verus! {

pub const SAME_NAME_REFERENCED: &'static str = "同名で形式の異なる画像を同時に参照できません: ";

/// The last component of a path written with `/`.
pub open spec fn after_last_slash(s: Seq<char>) -> Seq<char>
    decreases s.len(),
{
    if s.len() == 0 {
        s
    } else if s.last() == '/' {
        seq![]
    } else {
        after_last_slash(s.drop_last()).push(s.last())
    }
}

/// The preference of an image format: PDF, PNG, JPEG, JPEG 2000, BMP, then anything else.
pub open spec fn priority_of_extension(e: Seq<char>) -> u8 {
    if e == "pdf"@ {
        0
    } else if e == "png"@ {
        1
    } else if e == "jpg"@ || e == "jpeg"@ {
        2
    } else if e == "jp2"@ {
        3
    } else if e == "bmp"@ {
        4
    } else {
        5
    }
}

/// The preference of an image by the extension of its (compared) path.
pub open spec fn source_priority(path: Seq<char>) -> u8 {
    priority_of_extension(extension_of(after_last_slash(graphics_path(path))))
}

/// Texts in the order of their characters.
pub open spec fn text_lt(a: Seq<char>, b: Seq<char>) -> bool
    decreases a.len(),
{
    if a.len() == 0 {
        b.len() > 0
    } else if b.len() == 0 {
        false
    } else if a[0] != b[0] {
        a[0] < b[0]
    } else {
        text_lt(a.drop_first(), b.drop_first())
    }
}

/// `a` comes before `b`: by preference, then by compared path.
pub open spec fn source_before(a: Seq<char>, b: Seq<char>) -> bool {
    source_priority(a) < source_priority(b) || (source_priority(a) == source_priority(b) && text_lt(
        graphics_path(a),
        graphics_path(b),
    ))
}

/// `x` placed after every entry that does not come after it.
pub open spec fn insert_sorted(sorted: Seq<Seq<char>>, x: Seq<char>) -> Seq<Seq<char>>
    decreases sorted.len(),
{
    if sorted.len() == 0 {
        seq![x]
    } else if source_before(x, sorted.last()) {
        insert_sorted(sorted.drop_last(), x).push(sorted.last())
    } else {
        sorted.push(x)
    }
}

/// The candidates in order of preference, equal ones in the order given.
pub open spec fn sorted_sources(cs: Seq<Seq<char>>) -> Seq<Seq<char>>
    decreases cs.len(),
{
    if cs.len() == 0 {
        seq![]
    } else {
        insert_sorted(sorted_sources(cs.drop_last()), cs.last())
    }
}

/// The candidates, in order, that the LaTeX names.
pub open spec fn referenced_in(cs: Seq<Seq<char>>, refs: Seq<Seq<char>>) -> Seq<Seq<char>>
    decreases cs.len(),
{
    if cs.len() == 0 {
        seq![]
    } else {
        referenced_in(cs.drop_last(), refs) + (if refs.contains(graphics_path(cs.last())) {
            seq![cs.last()]
        } else {
            seq![]
        })
    }
}

/// The image measured for one group of same-named images: the one the LaTeX
/// names, else the preferred one; refused where the LaTeX names two of them.
pub open spec fn chosen_source(cs: Seq<Seq<char>>, refs: Seq<Seq<char>>) -> Result<Seq<char>, Seq<char>> {
    let s = sorted_sources(cs);
    let r = referenced_in(s, refs);
    if r.len() > 1 {
        Err(SAME_NAME_REFERENCED@ + join(s, ", "@))
    } else if r.len() == 1 {
        Ok(r[0])
    } else {
        Ok(s[0])
    }
}

proof fn lemma_insert_at(s: Seq<Seq<char>>, x: Seq<char>, j: int)
    requires
        0 <= j <= s.len(),
        forall|k: int| j <= k < s.len() ==> source_before(x, #[trigger] s[k]),
        j == 0 || !source_before(x, s[j - 1]),
    ensures
        insert_sorted(s, x) == s.insert(j, x),
    decreases s.len(),
{
    if s.len() == 0 {
        assert(s.insert(j, x) =~= seq![x]);
    } else if j == s.len() {
        assert(s.insert(j, x) =~= s.push(x));
    } else {
        assert(source_before(x, s.last()));
        lemma_insert_at(s.drop_last(), x, j);
        assert(s.insert(j, x) =~= s.drop_last().insert(j, x).push(s.last()));
    }
}

proof fn lemma_sorted_len(cs: Seq<Seq<char>>)
    ensures
        sorted_sources(cs).len() == cs.len(),
    decreases cs.len(),
{
    if cs.len() > 0 {
        lemma_sorted_len(cs.drop_last());
        lemma_insert_len(sorted_sources(cs.drop_last()), cs.last());
    }
}

proof fn lemma_insert_len(s: Seq<Seq<char>>, x: Seq<char>)
    ensures
        insert_sorted(s, x).len() == s.len() + 1,
    decreases s.len(),
{
    if s.len() > 0 && source_before(x, s.last()) {
        lemma_insert_len(s.drop_last(), x);
    }
}

fn text_lt_exec(a: &Vec<char>, b: &Vec<char>) -> (r: bool)
    ensures
        r == text_lt(a@, b@),
{
    let mut i: usize = 0;
    assert(a@.skip(0) =~= a@);
    assert(b@.skip(0) =~= b@);
    while i < a.len() && i < b.len() && a[i] == b[i]
        invariant
            i <= a.len(),
            i <= b.len(),
            text_lt(a@, b@) == text_lt(a@.skip(i as int), b@.skip(i as int)),
        decreases a.len() - i,
    {
        assert(a@.skip(i as int).drop_first() =~= a@.skip(i + 1));
        assert(b@.skip(i as int).drop_first() =~= b@.skip(i + 1));
        i += 1;
    }
    if i == a.len() {
        i < b.len()
    } else if i == b.len() {
        false
    } else {
        a[i] < b[i]
    }
}

fn after_last_slash_exec(s: &Vec<char>) -> (r: Vec<char>)
    ensures
        r@ == after_last_slash(s@),
{
    let mut k = s.len();
    assert(s@.take(k as int) =~= s@);
    while k > 0 && s[k - 1] != '/'
        invariant
            k <= s.len(),
            after_last_slash(s@) == after_last_slash(s@.take(k as int)) + s@.skip(k as int),
        decreases k,
    {
        assert(s@.take(k as int).drop_last() =~= s@.take(k - 1));
        assert(s@.skip(k - 1) =~= seq![s@[k - 1]] + s@.skip(k as int));
        k -= 1;
    }
    proof {
        if k > 0 {
            assert(s@.take(k as int).last() == '/');
        }
        assert(after_last_slash(s@.take(k as int)) =~= seq![]);
    }
    let r = crate::text::slice_of(s, k, s.len());
    assert(r@ =~= s@.skip(k as int));
    r
}

fn priority_exec(path: &Vec<char>) -> (r: u8)
    ensures
        r == source_priority(path@),
{
    let e = extension_exec(&after_last_slash_exec(&graphics_path_exec(path)));
    if is_str(&e, "pdf") {
        0
    } else if is_str(&e, "png") {
        1
    } else if is_str(&e, "jpg") || is_str(&e, "jpeg") {
        2
    } else if is_str(&e, "jp2") {
        3
    } else if is_str(&e, "bmp") {
        4
    } else {
        5
    }
}

fn before_exec(a: &Vec<char>, b: &Vec<char>) -> (r: bool)
    ensures
        r == source_before(a@, b@),
{
    let pa = priority_exec(a);
    let pb = priority_exec(b);
    pa < pb || (pa == pb && text_lt_exec(&graphics_path_exec(a), &graphics_path_exec(b)))
}

fn sort_sources(cs: &Vec<Vec<char>>) -> (r: Vec<Vec<char>>)
    ensures
        views(r@) == sorted_sources(views(cs@)),
{
    let ghost cv = views(cs@);
    let mut sorted: Vec<Vec<char>> = Vec::new();
    let mut i: usize = 0;
    while i < cs.len()
        invariant
            i <= cs.len(),
            cv == views(cs@),
            views(sorted@) == sorted_sources(cv.take(i as int)),
        decreases cs.len() - i,
    {
        proof {
            assert(cv.take(i + 1).drop_last() =~= cv.take(i as int));
            assert(cv.take(i + 1).last() == cs@[i as int]@);
        }
        let x = cs[i].clone();
        let mut j = sorted.len();
        while j > 0 && before_exec(&x, &sorted[j - 1])
            invariant
                j <= sorted.len(),
                x@ == cs@[i as int]@,
                forall|k: int| j <= k < sorted.len() ==> source_before(x@, #[trigger] views(sorted@)[k]),
            decreases j,
        {
            assert(views(sorted@)[j - 1] == sorted@[j - 1]@);
            j -= 1;
        }
        proof {
            if j > 0 {
                assert(views(sorted@)[j - 1] == sorted@[j - 1]@);
            }
            lemma_insert_at(views(sorted@), x@, j as int);
        }
        let ghost before = sorted@;
        sorted.insert(j, x);
        assert(views(sorted@) =~= views(before).insert(j as int, cs@[i as int]@));
        i += 1;
    }
    assert(cv.take(cs.len() as int) =~= cv);
    sorted
}

fn in_refs(refs: &Vec<String>, p: &Vec<char>) -> (b: bool)
    ensures
        b == refs@.map_values(|x: String| x@).contains(p@),
{
    let ghost rv = refs@.map_values(|x: String| x@);
    let mut k: usize = 0;
    while k < refs.len()
        invariant
            k <= refs.len(),
            rv == refs@.map_values(|x: String| x@),
            forall|j: int| 0 <= j < k ==> rv[j] != p@,
        decreases refs.len() - k,
    {
        if eq_chars(&chars_of(refs[k].as_str()), p) {
            assert(rv[k as int] == p@);
            return true;
        }
        k += 1;
    }
    false
}

fn choose_source(cands: &Vec<Vec<char>>, refs: &Vec<String>) -> (r: Result<Vec<char>, String>)
    requires
        cands.len() > 0,
    ensures
        match chosen_source(views(cands@), refs@.map_values(|x: String| x@)) {
            Ok(c) => r matches Ok(v) && v@ == c,
            Err(m) => r matches Err(e) && e@ == m,
        },
{
    let ghost rv = refs@.map_values(|x: String| x@);
    let sorted = sort_sources(cands);
    proof {
        lemma_sorted_len(views(cands@));
    }
    let ghost sv = views(sorted@);
    let mut hits: Vec<Vec<char>> = Vec::new();
    let mut i: usize = 0;
    while i < sorted.len()
        invariant
            i <= sorted.len(),
            sv == views(sorted@),
            rv == refs@.map_values(|x: String| x@),
            views(hits@) == referenced_in(sv.take(i as int), rv),
        decreases sorted.len() - i,
    {
        proof {
            assert(sv.take(i + 1).drop_last() =~= sv.take(i as int));
            assert(sv.take(i + 1).last() == sorted@[i as int]@);
        }
        let ghost before = hits@;
        if in_refs(refs, &graphics_path_exec(&sorted[i])) {
            hits.push(sorted[i].clone());
            assert(views(hits@) =~= views(before) + seq![sorted@[i as int]@]);
        } else {
            assert(views(hits@) =~= views(before) + Seq::<Seq<char>>::empty());
        }
        i += 1;
    }
    assert(sv.take(sorted.len() as int) =~= sv);
    if hits.len() > 1 {
        let mut m = chars_of(SAME_NAME_REFERENCED);
        push_all(&mut m, &join_chars(&sorted, &chars_of(", ")));
        Err(string_of(&m))
    } else if hits.len() == 1 {
        assert(views(hits@)[0] == hits@[0]@);
        Ok(hits[0].clone())
    } else {
        assert(sv[0] == sorted@[0]@);
        Ok(sorted[0].clone())
    }
}

/// The images of every group, chosen in the order of the groups; the first
/// refusal stops the choice.
pub open spec fn chosen_sources(groups: Seq<Seq<Seq<char>>>, refs: Seq<Seq<char>>) -> Result<Seq<Seq<char>>, Seq<char>>
    decreases groups.len(),
{
    if groups.len() == 0 {
        Ok(seq![])
    } else {
        match chosen_sources(groups.drop_last(), refs) {
            Err(e) => Err(e),
            Ok(done) => match chosen_source(groups.last(), refs) {
                Err(e) => Err(e),
                Ok(c) => Ok(done.push(c)),
            },
        }
    }
}

pub open spec fn group_views(groups: Seq<Vec<String>>) -> Seq<Seq<Seq<char>>> {
    groups.map_values(|g: Vec<String>| g@.map_values(|x: String| x@))
}

proof fn lemma_chosen_err_persists(groups: Seq<Seq<Seq<char>>>, refs: Seq<Seq<char>>, k: int)
    requires
        0 <= k <= groups.len(),
        chosen_sources(groups.take(k), refs) is Err,
    ensures
        chosen_sources(groups, refs) == chosen_sources(groups.take(k), refs),
    decreases groups.len() - k,
{
    if k < groups.len() {
        assert(groups.take(k + 1).drop_last() =~= groups.take(k));
        lemma_chosen_err_persists(groups, refs, k + 1);
    } else {
        assert(groups.take(k) =~= groups);
    }
}

/// Chooses, of each group of images that share a name, the one whose bounding
/// box is measured, given the LaTeX that uses them.
pub fn select_graphics_bounding_box_sources(groups: &Vec<Vec<String>>, tex: &str) -> (r: Result<Vec<String>, String>)
    requires
        forall|i: int| 0 <= i < groups.len() ==> (#[trigger] groups@[i]).len() > 0,
    ensures
        match chosen_sources(group_views(groups@), graphics_refs_from(tex@, 0)) {
            Ok(cs) => r matches Ok(v) && v@.map_values(|x: String| x@) == cs,
            Err(m) => r matches Err(e) && e@ == m,
        },
{
    let refs = includegraphics_references(tex);
    let ghost gv = group_views(groups@);
    let ghost rv = graphics_refs_from(tex@, 0);
    let mut out: Vec<String> = Vec::new();
    let mut i: usize = 0;
    assert(gv.take(0) =~= Seq::<Seq<Seq<char>>>::empty());
    assert(out@.map_values(|x: String| x@) =~= Seq::<Seq<char>>::empty());
    while i < groups.len()
        invariant
            i <= groups.len(),
            gv == group_views(groups@),
            rv == refs@.map_values(|x: String| x@),
            rv == graphics_refs_from(tex@, 0),
            forall|j: int| 0 <= j < groups.len() ==> (#[trigger] groups@[j]).len() > 0,
            chosen_sources(gv.take(i as int), rv) == Ok::<Seq<Seq<char>>, Seq<char>>(out@.map_values(|x: String| x@)),
        decreases groups.len() - i,
    {
        proof {
            assert(gv.take(i + 1).drop_last() =~= gv.take(i as int));
            assert(gv.take(i + 1).last() == groups@[i as int]@.map_values(|x: String| x@));
        }
        let mut cands: Vec<Vec<char>> = Vec::new();
        let g = &groups[i];
        let mut k: usize = 0;
        while k < g.len()
            invariant
                k <= g.len(),
                views(cands@) == g@.take(k as int).map_values(|x: String| x@),
            decreases g.len() - k,
        {
            let ghost before = cands@;
            cands.push(chars_of(g[k].as_str()));
            assert(g@.take(k + 1) =~= g@.take(k as int).push(g@[k as int]));
            assert(views(cands@) =~= views(before).push(g@[k as int]@));
            assert(views(cands@) =~= g@.take(k + 1).map_values(|x: String| x@));
            k += 1;
        }
        assert(g@.take(g.len() as int) =~= g@);
        assert(views(cands@) == gv[i as int]);
        match choose_source(&cands, &refs) {
            Err(e) => {
                proof {
                    assert(chosen_sources(gv.take(i + 1), rv) == Err::<Seq<Seq<char>>, Seq<char>>(e@));
                    lemma_chosen_err_persists(gv, rv, i + 1);
                }
                return Err(e);
            },
            Ok(c) => {
                let ghost before = out@;
                out.push(string_of(&c));
                assert(out@.map_values(|x: String| x@) =~= before.map_values(|x: String| x@).push(c@));
            },
        }
        i += 1;
    }
    assert(gv.take(groups.len() as int) =~= gv);
    Ok(out)
}


proof fn lemma_insert_members(s: Seq<Seq<char>>, x: Seq<char>)
    ensures
        forall|k: int| 0 <= k < insert_sorted(s, x).len() ==> (#[trigger] insert_sorted(s, x)[k]) == x || s.contains(
            insert_sorted(s, x)[k],
        ),
    decreases s.len(),
{
    if s.len() > 0 && source_before(x, s.last()) {
        lemma_insert_members(s.drop_last(), x);
        let prev = insert_sorted(s.drop_last(), x);
        assert forall|k: int| 0 <= k < insert_sorted(s, x).len() implies (#[trigger] insert_sorted(s, x)[k]) == x || s.contains(
            insert_sorted(s, x)[k],
        ) by {
            if k < prev.len() {
                assert(insert_sorted(s, x)[k] == prev[k]);
                if prev[k] != x {
                    let j = choose|j: int| 0 <= j < s.drop_last().len() && s.drop_last()[j] == prev[k];
                    assert(s[j] == prev[k]);
                }
            } else {
                assert(insert_sorted(s, x)[k] == s.last());
                assert(s[s.len() - 1] == s.last());
            }
        }
    } else if s.len() > 0 {
        assert forall|k: int| 0 <= k < insert_sorted(s, x).len() implies (#[trigger] insert_sorted(s, x)[k]) == x || s.contains(
            insert_sorted(s, x)[k],
        ) by {
            if k < s.len() {
                assert(insert_sorted(s, x)[k] == s[k]);
            }
        }
    }
}

proof fn lemma_sorted_members(cs: Seq<Seq<char>>)
    ensures
        forall|k: int| 0 <= k < sorted_sources(cs).len() ==> cs.contains(#[trigger] sorted_sources(cs)[k]),
    decreases cs.len(),
{
    if cs.len() > 0 {
        lemma_sorted_members(cs.drop_last());
        let prev = sorted_sources(cs.drop_last());
        lemma_insert_members(prev, cs.last());
        assert forall|k: int| 0 <= k < sorted_sources(cs).len() implies cs.contains(#[trigger] sorted_sources(cs)[k]) by {
            let e = sorted_sources(cs)[k];
            if e == cs.last() {
                assert(cs[cs.len() - 1] == e);
            } else {
                let j = choose|j: int| 0 <= j < prev.len() && prev[j] == e;
                let m = choose|m: int| 0 <= m < cs.drop_last().len() && cs.drop_last()[m] == prev[j];
                assert(cs[m] == e);
            }
        }
    }
}

proof fn lemma_referenced_members(cs: Seq<Seq<char>>, refs: Seq<Seq<char>>)
    ensures
        forall|k: int| 0 <= k < referenced_in(cs, refs).len() ==> cs.contains(#[trigger] referenced_in(cs, refs)[k])
            && refs.contains(graphics_path(referenced_in(cs, refs)[k])),
    decreases cs.len(),
{
    if cs.len() > 0 {
        lemma_referenced_members(cs.drop_last(), refs);
        let prev = referenced_in(cs.drop_last(), refs);
        assert forall|k: int| 0 <= k < referenced_in(cs, refs).len() implies cs.contains(#[trigger] referenced_in(cs, refs)[k])
            && refs.contains(graphics_path(referenced_in(cs, refs)[k])) by {
            if k < prev.len() {
                assert(referenced_in(cs, refs)[k] == prev[k]);
                let j = choose|j: int| 0 <= j < cs.drop_last().len() && cs.drop_last()[j] == prev[k];
                assert(cs[j] == prev[k]);
            } else {
                assert(referenced_in(cs, refs)[k] == cs.last());
                assert(cs[cs.len() - 1] == cs.last());
            }
        }
    }
}

/// Law: the image measured for a group is one of the group; where the LaTeX
/// names an image of the group, the one measured is the one it names.
pub proof fn lemma_chosen_source_is_a_candidate(cs: Seq<Seq<char>>, refs: Seq<Seq<char>>)
    requires
        cs.len() > 0,
        chosen_source(cs, refs) is Ok,
    ensures
        cs.contains(chosen_source(cs, refs)->Ok_0),
        referenced_in(sorted_sources(cs), refs).len() > 0 ==> refs.contains(graphics_path(chosen_source(cs, refs)->Ok_0)),
{
    lemma_sorted_len(cs);
    lemma_sorted_members(cs);
    let s = sorted_sources(cs);
    lemma_referenced_members(s, refs);
    let r = referenced_in(s, refs);
    if r.len() == 1 {
        let j = choose|j: int| 0 <= j < s.len() && s[j] == r[0];
        assert(cs.contains(s[j]));
    } else {
        assert(cs.contains(s[0]));
    }
}

} // verus!
