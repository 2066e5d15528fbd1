//! Which daily backups of the database are pruned: only daily backups, named
//! `kyozai-kobo-YYYYMMDD.db`, and only beyond the ten newest. Backups made by
//! hand, before a restore or before a migration follow other rules and are
//! never pruned here.
use vstd::prelude::*;
use crate::graphics::text_lt;
use crate::text::{chars_of, string_of};

verus! {

/// How many daily backups are kept.
pub const DAILY_BACKUPS_KEPT: usize = 10;

/// `kyozai-kobo-`, eight ASCII digits, `.db`.
pub open spec fn is_daily_backup(name: Seq<char>) -> bool {
    &&& name.len() == 23
    &&& name.take(12) == "kyozai-kobo-"@
    &&& name.skip(20) == ".db"@
    &&& forall|k: int| 12 <= k < 20 ==> '0' <= #[trigger] name[k] && name[k] <= '9'
}

/// `x` placed among names in increasing order, unless it is there already.
pub open spec fn insert_name(sorted: Seq<Seq<char>>, x: Seq<char>) -> Seq<Seq<char>>
    decreases sorted.len(),
{
    if sorted.len() == 0 {
        seq![x]
    } else if sorted.last() == x {
        sorted
    } else if text_lt(x, sorted.last()) {
        insert_name(sorted.drop_last(), x).push(sorted.last())
    } else {
        sorted.push(x)
    }
}

/// The distinct daily backups among `names`, oldest first.
pub open spec fn daily_sorted(names: Seq<Seq<char>>) -> Seq<Seq<char>>
    decreases names.len(),
{
    if names.len() == 0 {
        seq![]
    } else if is_daily_backup(names.last()) {
        insert_name(daily_sorted(names.drop_last()), names.last())
    } else {
        daily_sorted(names.drop_last())
    }
}

/// The daily backups pruned: all but the ten newest, oldest first.
pub open spec fn pruned_backups(names: Seq<Seq<char>>) -> Seq<Seq<char>> {
    let s = daily_sorted(names);
    if s.len() > DAILY_BACKUPS_KEPT { s.take(s.len() - DAILY_BACKUPS_KEPT) } else { seq![] }
}

fn is_daily_exec(v: &Vec<char>) -> (b: bool)
    ensures
        b == is_daily_backup(v@),
{
    proof {
        reveal_strlit("kyozai-kobo-");
        reveal_strlit(".db");
    }
    if v.len() != 23 {
        return false;
    }
    let prefix = chars_of("kyozai-kobo-");
    let mut k: usize = 0;
    while k < 12
        invariant
            v.len() == 23,
            prefix@ == "kyozai-kobo-"@,
            prefix@.len() == 12,
            k <= 12,
            forall|j: int| 0 <= j < k ==> v@[j] == prefix@[j],
        decreases 12 - k,
    {
        if v[k] != prefix[k] {
            assert(v@.take(12)[k as int] != "kyozai-kobo-"@[k as int]);
            return false;
        }
        k += 1;
    }
    assert(v@.take(12) =~= "kyozai-kobo-"@);
    let mut d: usize = 12;
    while d < 20
        invariant
            v.len() == 23,
            12 <= d <= 20,
            forall|j: int| 12 <= j < d ==> '0' <= #[trigger] v@[j] && v@[j] <= '9',
        decreases 20 - d,
    {
        if !('0' <= v[d] && v[d] <= '9') {
            return false;
        }
        d += 1;
    }
    let ok = v[20] == '.' && v[21] == 'd' && v[22] == 'b';
    proof {
        if ok {
            assert(v@.skip(20) =~= ".db"@);
        } else {
            if v@.skip(20) == ".db"@ {
                assert(v@.skip(20)[0] == v@[20]);
                assert(v@.skip(20)[1] == v@[21]);
                assert(v@.skip(20)[2] == v@[22]);
            }
        }
    }
    ok
}

fn text_lt_vec(a: &Vec<char>, b: &Vec<char>) -> (r: bool)
    ensures
        r == text_lt(a@, b@),
{
    let mut i: usize = 0;
    assert(a@.skip(0) =~= a@);
    assert(b@.skip(0) =~= b@);
    while i < a.len() && i < b.len() && a[i] == b[i]
        invariant
            i <= a.len(),
            i <= b.len(),
            text_lt(a@, b@) == text_lt(a@.skip(i as int), b@.skip(i as int)),
        decreases a.len() - i,
    {
        assert(a@.skip(i as int).drop_first() =~= a@.skip(i + 1));
        assert(b@.skip(i as int).drop_first() =~= b@.skip(i + 1));
        i += 1;
    }
    if i == a.len() {
        i < b.len()
    } else if i == b.len() {
        false
    } else {
        a[i] < b[i]
    }
}

proof fn lemma_insert_name_at(s: Seq<Seq<char>>, x: Seq<char>, j: int)
    requires
        0 <= j <= s.len(),
        forall|k: int| j <= k < s.len() ==> text_lt(x, #[trigger] s[k]) && s[k] != x,
        j == 0 || !text_lt(x, s[j - 1]),
        j == 0 || s[j - 1] != x,
    ensures
        insert_name(s, x) == s.insert(j, x),
    decreases s.len(),
{
    if s.len() == 0 {
        assert(s.insert(j, x) =~= seq![x]);
    } else if j == s.len() {
        assert(s.insert(j, x) =~= s.push(x));
    } else {
        lemma_insert_name_at(s.drop_last(), x, j);
        assert(s.insert(j, x) =~= s.drop_last().insert(j, x).push(s.last()));
    }
}

proof fn lemma_insert_name_present(s: Seq<Seq<char>>, x: Seq<char>, j: int)
    requires
        0 < j <= s.len(),
        forall|k: int| j <= k < s.len() ==> text_lt(x, #[trigger] s[k]) && s[k] != x,
        s[j - 1] == x,
    ensures
        insert_name(s, x) == s,
    decreases s.len(),
{
    if j < s.len() {
        lemma_insert_name_present(s.drop_last(), x, j);
        assert(s.drop_last().push(s.last()) =~= s);
    }
}

/// The daily backups to delete, oldest first, of the backup file names given.
pub fn daily_backups_to_prune(names: &Vec<String>) -> (r: Vec<String>)
    ensures
        r@.map_values(|n: String| n@) == pruned_backups(names@.map_values(|n: String| n@)),
{
    let ghost nv = names@.map_values(|n: String| n@);
    let mut sorted: Vec<Vec<char>> = Vec::new();
    let mut i: usize = 0;
    while i < names.len()
        invariant
            i <= names.len(),
            nv == names@.map_values(|n: String| n@),
            crate::text::views(sorted@) == daily_sorted(nv.take(i as int)),
        decreases names.len() - i,
    {
        proof {
            assert(nv.take(i + 1).drop_last() =~= nv.take(i as int));
            assert(nv.take(i + 1).last() == names@[i as int]@);
        }
        let x = chars_of(names[i].as_str());
        if is_daily_exec(&x) {
            let ghost sv = crate::text::views(sorted@);
            let mut j = sorted.len();
            while j > 0 && text_lt_vec(&x, &sorted[j - 1]) && !crate::text::eq_chars(&x, &sorted[j - 1])
                invariant
                    j <= sorted.len(),
                    sv == crate::text::views(sorted@),
                    forall|k: int| j <= k < sorted.len() ==> text_lt(x@, #[trigger] sv[k]) && sv[k] != x@,
                decreases j,
            {
                assert(sv[j - 1] == sorted@[j - 1]@);
                j -= 1;
            }
            if j > 0 && crate::text::eq_chars(&x, &sorted[j - 1]) {
                proof {
                    assert(sv[j - 1] == sorted@[j - 1]@);
                    lemma_insert_name_present(sv, x@, j as int);
                }
            } else {
                proof {
                    if j > 0 {
                        assert(sv[j - 1] == sorted@[j - 1]@);
                    }
                    lemma_insert_name_at(sv, x@, j as int);
                }
                sorted.insert(j, x);
                assert(crate::text::views(sorted@) =~= sv.insert(j as int, x@));
            }
        }
        i += 1;
    }
    assert(nv.take(names.len() as int) =~= nv);
    let ghost s = daily_sorted(nv);
    let mut out: Vec<String> = Vec::new();
    if sorted.len() > DAILY_BACKUPS_KEPT {
        let n = sorted.len() - DAILY_BACKUPS_KEPT;
        let mut k: usize = 0;
        while k < n
            invariant
                n == s.len() - DAILY_BACKUPS_KEPT,
                n <= sorted.len(),
                s == crate::text::views(sorted@),
                k <= n,
                out@.map_values(|x: String| x@) == s.take(k as int),
            decreases n - k,
        {
            let ghost before = out@;
            out.push(string_of(&sorted[k]));
            assert(out@.map_values(|x: String| x@) =~= before.map_values(|x: String| x@).push(sorted@[k as int]@));
            assert(s.take(k + 1) =~= s.take(k as int).push(s[k as int]));
            k += 1;
        }
    } else {
        assert(out@.map_values(|x: String| x@) =~= Seq::<Seq<char>>::empty());
    }
    out
}


// ---------------------------------------------------------------------------
// Why only the oldest daily backups go
// ---------------------------------------------------------------------------

proof fn lemma_text_lt_irreflexive(a: Seq<char>)
    ensures
        !text_lt(a, a),
    decreases a.len(),
{
    if a.len() > 0 {
        lemma_text_lt_irreflexive(a.drop_first());
    }
}

proof fn lemma_text_lt_transitive(a: Seq<char>, b: Seq<char>, c: Seq<char>)
    requires
        text_lt(a, b),
        text_lt(b, c),
    ensures
        text_lt(a, c),
    decreases a.len(),
{
    if a.len() > 0 && b.len() > 0 && c.len() > 0 && a[0] == b[0] && b[0] == c[0] {
        lemma_text_lt_transitive(a.drop_first(), b.drop_first(), c.drop_first());
    }
}

proof fn lemma_text_lt_total(a: Seq<char>, b: Seq<char>)
    requires
        a != b,
    ensures
        text_lt(a, b) || text_lt(b, a),
    decreases a.len(),
{
    if a.len() > 0 && b.len() > 0 && a[0] == b[0] {
        if a.drop_first() == b.drop_first() {
            assert(a =~= seq![a[0]] + a.drop_first());
            assert(b =~= seq![b[0]] + b.drop_first());
        }
        lemma_text_lt_total(a.drop_first(), b.drop_first());
    } else if a.len() == 0 && b.len() == 0 {
        assert(a =~= b);
    }
}

pub open spec fn increasing(s: Seq<Seq<char>>) -> bool {
    forall|i: int, j: int| 0 <= i < j < s.len() ==> text_lt(#[trigger] s[i], #[trigger] s[j])
}

proof fn lemma_insert_name_members(s: Seq<Seq<char>>, x: Seq<char>)
    ensures
        forall|y: Seq<char>| #[trigger] insert_name(s, x).contains(y) <==> (s.contains(y) || y == x),
    decreases s.len(),
{
    let r = insert_name(s, x);
    if s.len() == 0 {
        assert forall|y: Seq<char>| #[trigger] r.contains(y) <==> (s.contains(y) || y == x) by {
            if y == x {
                assert(r[0] == x);
            }
        }
    } else if s.last() == x {
        assert forall|y: Seq<char>| #[trigger] r.contains(y) <==> (s.contains(y) || y == x) by {
            if y == x {
                assert(s[s.len() - 1] == x);
            }
        }
    } else if text_lt(x, s.last()) {
        let front = s.drop_last();
        lemma_insert_name_members(front, x);
        let m = insert_name(front, x);
        assert(r == m.push(s.last()));
        assert forall|y: Seq<char>| #[trigger] r.contains(y) <==> (s.contains(y) || y == x) by {
            if r.contains(y) {
                let k = choose|k: int| 0 <= k < r.len() && r[k] == y;
                if k < m.len() {
                    assert(m[k] == y);
                    assert(m.contains(y));
                    if front.contains(y) {
                        let q = choose|q: int| 0 <= q < front.len() && front[q] == y;
                        assert(s[q] == y);
                    }
                } else {
                    assert(s[s.len() - 1] == y);
                }
            }
            if s.contains(y) {
                let q = choose|q: int| 0 <= q < s.len() && s[q] == y;
                if q < s.len() - 1 {
                    assert(front[q] == y);
                    assert(front.contains(y));
                    assert(m.contains(y));
                    let k = choose|k: int| 0 <= k < m.len() && m[k] == y;
                    assert(r[k] == y);
                } else {
                    assert(r[r.len() - 1] == y);
                }
            }
            if y == x {
                assert(m.contains(x));
                let k = choose|k: int| 0 <= k < m.len() && m[k] == x;
                assert(r[k] == x);
            }
        }
    } else {
        assert(r == s.push(x));
        assert forall|y: Seq<char>| #[trigger] r.contains(y) <==> (s.contains(y) || y == x) by {
            if r.contains(y) {
                let k = choose|k: int| 0 <= k < r.len() && r[k] == y;
                if k < s.len() {
                    assert(s[k] == y);
                }
            }
            if s.contains(y) {
                let q = choose|q: int| 0 <= q < s.len() && s[q] == y;
                assert(r[q] == y);
            }
            if y == x {
                assert(r[r.len() - 1] == x);
            }
        }
    }
}

proof fn lemma_insert_name_increasing(s: Seq<Seq<char>>, x: Seq<char>)
    requires
        increasing(s),
    ensures
        increasing(insert_name(s, x)),
    decreases s.len(),
{
    let r = insert_name(s, x);
    if s.len() == 0 || s.last() == x {
    } else if text_lt(x, s.last()) {
        let front = s.drop_last();
        assert(increasing(front)) by {
            assert forall|i: int, j: int| 0 <= i < j < front.len() implies text_lt(#[trigger] front[i], #[trigger] front[j]) by {
                assert(front[i] == s[i] && front[j] == s[j]);
            }
        }
        lemma_insert_name_increasing(front, x);
        lemma_insert_name_members(front, x);
        let m = insert_name(front, x);
        assert(r == m.push(s.last()));
        assert forall|i: int, j: int| 0 <= i < j < r.len() implies text_lt(#[trigger] r[i], #[trigger] r[j]) by {
            if j < m.len() {
                assert(r[i] == m[i] && r[j] == m[j]);
            } else {
                assert(r[j] == s.last());
                assert(r[i] == m[i]);
                assert(m.contains(m[i]));
                if m[i] != x {
                    assert(front.contains(m[i]));
                    let q = choose|q: int| 0 <= q < front.len() && front[q] == m[i];
                    assert(s[q] == m[i]);
                    assert(text_lt(s[q], s[s.len() - 1]));
                }
            }
        }
    } else {
        assert(r == s.push(x));
        lemma_text_lt_total(x, s.last());
        assert forall|i: int, j: int| 0 <= i < j < r.len() implies text_lt(#[trigger] r[i], #[trigger] r[j]) by {
            if j < s.len() {
                assert(r[i] == s[i] && r[j] == s[j]);
            } else {
                assert(r[i] == s[i]);
                if i < s.len() - 1 {
                    assert(text_lt(s[i], s[s.len() - 1]));
                    lemma_text_lt_transitive(s[i], s[s.len() - 1], x);
                }
            }
        }
    }
}

pub open spec fn daily_in(names: Seq<Seq<char>>, y: Seq<char>) -> bool {
    names.contains(y) && is_daily_backup(y)
}

proof fn lemma_daily_sorted_props(names: Seq<Seq<char>>)
    ensures
        increasing(daily_sorted(names)),
        forall|y: Seq<char>| #[trigger] daily_sorted(names).contains(y) <==> daily_in(names, y),
    decreases names.len(),
{
    if names.len() > 0 {
        let front = names.drop_last();
        let last = names.last();
        lemma_daily_sorted_props(front);
        let prev = daily_sorted(front);
        if is_daily_backup(last) {
            lemma_insert_name_increasing(prev, last);
            lemma_insert_name_members(prev, last);
        }
        assert forall|y: Seq<char>| #[trigger] daily_sorted(names).contains(y) <==> daily_in(names, y) by {
            assert(names.contains(y) <==> (front.contains(y) || y == last)) by {
                if names.contains(y) && y != last {
                    let q = choose|q: int| 0 <= q < names.len() && names[q] == y;
                    assert(q < names.len() - 1);
                    assert(front[q] == y);
                }
                if front.contains(y) {
                    let q = choose|q: int| 0 <= q < front.len() && front[q] == y;
                    assert(names[q] == y);
                }
                if y == last {
                    assert(names[names.len() - 1] == y);
                }
            }
            assert(prev.contains(y) <==> daily_in(front, y));
        }
    }
}

/// The daily backups among `names` that are newer than `x`.
pub open spec fn newer_daily(names: Seq<Seq<char>>, x: Seq<char>) -> Set<Seq<char>> {
    names.to_set().filter(|y: Seq<char>| is_daily_backup(y) && text_lt(x, y))
}

/// Law: pruning deletes only daily backups among those given, oldest first
/// and each once, and of the daily backups exactly those with at least ten
/// newer daily backups: the ten newest always stay.
pub proof fn lemma_pruning_keeps_the_ten_newest(names: Seq<Seq<char>>)
    ensures
        forall|i: int| 0 <= i < pruned_backups(names).len() ==> daily_in(names, #[trigger] pruned_backups(names)[i]),
        increasing(pruned_backups(names)),
        forall|x: Seq<char>| daily_in(names, x) ==> (pruned_backups(names).contains(x) <==> newer_daily(names, x).len()
            >= DAILY_BACKUPS_KEPT),
{
    lemma_daily_sorted_props(names);
    let s = daily_sorted(names);
    let p = pruned_backups(names);
    assert forall|i: int| 0 <= i < p.len() implies daily_in(names, #[trigger] p[i]) by {
        assert(p[i] == s[i]);
        assert(s.contains(s[i]));
    }
    assert(increasing(p)) by {
        assert forall|i: int, j: int| 0 <= i < j < p.len() implies text_lt(#[trigger] p[i], #[trigger] p[j]) by {
            assert(p[i] == s[i] && p[j] == s[j]);
        }
    }
    assert forall|x: Seq<char>| daily_in(names, x) implies (p.contains(x) <==> newer_daily(names, x).len()
        >= DAILY_BACKUPS_KEPT) by {
        assert(s.contains(x));
        let i = choose|i: int| 0 <= i < s.len() && s[i] == x;
        let later = s.skip(i + 1);
        assert(later.no_duplicates()) by {
            assert forall|a: int, b: int| 0 <= a < later.len() && 0 <= b < later.len() && a != b implies later[a] != later[b] by {
                let (lo, hi) = if a < b { (a, b) } else { (b, a) };
                assert(text_lt(s[i + 1 + lo], s[i + 1 + hi]));
                lemma_text_lt_irreflexive(s[i + 1 + lo]);
            }
        }
        later.unique_seq_to_set();
        assert(newer_daily(names, x) =~= later.to_set()) by {
            assert forall|y: Seq<char>| newer_daily(names, x).contains(y) <==> later.to_set().contains(y) by {
                if newer_daily(names, x).contains(y) {
                    assert(names.contains(y));
                    assert(daily_in(names, y));
                    assert(s.contains(y));
                    let k = choose|k: int| 0 <= k < s.len() && s[k] == y;
                    if k <= i {
                        if k == i {
                            lemma_text_lt_irreflexive(x);
                        } else {
                            assert(text_lt(s[k], s[i]));
                            lemma_text_lt_transitive(x, y, x);
                            lemma_text_lt_irreflexive(x);
                        }
                    }
                    assert(later[k - i - 1] == y);
                }
                if later.to_set().contains(y) {
                    let k = choose|k: int| 0 <= k < later.len() && later[k] == y;
                    assert(s[i + 1 + k] == y);
                    assert(s.contains(y));
                    assert(daily_in(names, y));
                    assert(text_lt(s[i], s[i + 1 + k]));
                }
            }
        }
        if s.len() > DAILY_BACKUPS_KEPT && i < s.len() - DAILY_BACKUPS_KEPT {
            assert(p[i] == x);
        }
        if p.contains(x) {
            let k = choose|k: int| 0 <= k < p.len() && p[k] == x;
            assert(s[k] == x);
            if k != i {
                let (lo, hi) = if k < i { (k, i) } else { (i, k) };
                assert(text_lt(s[lo], s[hi]));
                lemma_text_lt_irreflexive(x);
            }
        }
    }
}

} // verus!
