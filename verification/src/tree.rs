//! The problem bank as a tree of folders of any depth.
use vstd::prelude::*;

verus! {

/// A folder of the problem bank as read from storage: its place and counts.
#[derive(Clone, Debug, Default)]
pub struct FlatBankNode {
    pub id: i64,
    pub parent_id: Option<i64>,
    pub name: String,
    pub sort_order: i64,
    pub problem_count: i64,
    pub descendant_problem_count: i64,
    pub part_count: i64,
    pub descendant_part_count: i64,
    pub legacy_unit_id: Option<i64>,
}

/// A folder of the problem bank with its subfolders.
pub struct BankNode {
    pub id: i64,
    pub parent_id: Option<i64>,
    pub name: String,
    pub sort_order: i64,
    pub problem_count: i64,
    pub descendant_problem_count: i64,
    pub part_count: i64,
    pub descendant_part_count: i64,
    pub legacy_unit_id: Option<i64>,
    pub children: Vec<BankNode>,
}

/// The folders of `flat` directly under `parent` that are not already on the
/// path from the root (so that a cycle in stored parents cannot repeat).
pub open spec fn kids(parent: Option<i64>, flat: Seq<FlatBankNode>, path: Seq<i64>) -> Seq<FlatBankNode>
    decreases flat.len(),
{
    if flat.len() == 0 {
        seq![]
    } else {
        let n = flat.last();
        kids(parent, flat.drop_last(), path) + (if n.parent_id == parent && !path.contains(n.id) {
            seq![n]
        } else {
            seq![]
        })
    }
}

/// A tree node carries the stored folder's fields.
pub open spec fn same_folder(b: BankNode, f: FlatBankNode) -> bool {
    &&& b.id == f.id
    &&& b.parent_id == f.parent_id
    &&& b.name == f.name
    &&& b.sort_order == f.sort_order
    &&& b.problem_count == f.problem_count
    &&& b.descendant_problem_count == f.descendant_problem_count
    &&& b.part_count == f.part_count
    &&& b.descendant_part_count == f.descendant_part_count
    &&& b.legacy_unit_id == f.legacy_unit_id
}

/// `r` is the forest under `parent`: one node per child folder, in stored order,
/// each with its own subtree, going at most `depth` levels down.
pub open spec fn forest(r: Seq<BankNode>, parent: Option<i64>, flat: Seq<FlatBankNode>, path: Seq<i64>, depth: nat) -> bool
    decreases depth,
{
    if depth == 0 {
        r.len() == 0
    } else {
        let ks = kids(parent, flat, path);
        &&& r.len() == ks.len()
        &&& forall|i: int| 0 <= i < r.len() ==> same_folder(#[trigger] r[i], ks[i])
        &&& forall|i: int| 0 <= i < r.len() ==> forest(
            (#[trigger] r[i]).children@,
            Some(ks[i].id),
            flat,
            path.push(ks[i].id),
            (depth - 1) as nat,
        )
    }
}

fn on_path(path: &Vec<i64>, id: i64) -> (b: bool)
    ensures
        b == path@.contains(id),
{
    let mut k: usize = 0;
    while k < path.len()
        invariant
            k <= path.len(),
            forall|j: int| 0 <= j < k ==> path@[j] != id,
        decreases path.len() - k,
    {
        if path[k] == id {
            return true;
        }
        k += 1;
    }
    false
}

/// Builds the folders under `parent`, skipping any folder already on the path.
fn build_bank_children(parent: Option<i64>, flat: &Vec<FlatBankNode>, path: &mut Vec<i64>, depth: usize) -> (r: Vec<BankNode>)
    ensures
        forest(r@, parent, flat@, old(path)@, depth as nat),
        final(path)@ == old(path)@,
    decreases depth,
{
    let mut out: Vec<BankNode> = Vec::new();
    if depth == 0 {
        return out;
    }
    let ghost p0 = path@;
    let mut i: usize = 0;
    while i < flat.len()
        invariant
            i <= flat.len(),
            depth > 0,
            path@ == p0,
            out@.len() == kids(parent, flat@.take(i as int), p0).len(),
            forall|j: int| 0 <= j < out@.len() ==> same_folder(#[trigger] out@[j], kids(parent, flat@.take(i as int), p0)[j]),
            forall|j: int| 0 <= j < out@.len() ==> forest(
                (#[trigger] out@[j]).children@,
                Some(kids(parent, flat@.take(i as int), p0)[j].id),
                flat@,
                p0.push(kids(parent, flat@.take(i as int), p0)[j].id),
                (depth - 1) as nat,
            ),
        decreases flat.len() - i,
    {
        proof {
            assert(flat@.take(i + 1).drop_last() =~= flat@.take(i as int));
        }
        let n = &flat[i];
        if n.parent_id == parent && !on_path(path, n.id) {
            path.push(n.id);
            let children = build_bank_children(Some(n.id), flat, path, depth - 1);
            path.pop();
            assert(path@ =~= p0);
            out.push(BankNode {
                id: n.id,
                parent_id: n.parent_id,
                name: n.name.clone(),
                sort_order: n.sort_order,
                problem_count: n.problem_count,
                descendant_problem_count: n.descendant_problem_count,
                part_count: n.part_count,
                descendant_part_count: n.descendant_part_count,
                legacy_unit_id: n.legacy_unit_id,
                children,
            });
        }
        i += 1;
    }
    assert(flat@.take(flat@.len() as int) =~= flat@);
    out
}

/// The bank folders as a tree: the folders without a parent at the top, each
/// with its subfolders in stored order.
pub fn get_bank_tree(flat: &Vec<FlatBankNode>) -> (r: Vec<BankNode>)
    requires
        flat@.len() < usize::MAX,
    ensures
        forest(r@, None, flat@, seq![], (flat@.len() + 1) as nat),
        repeat_free(r@, seq![], (flat@.len() + 1) as nat),
        flat_sorted(flat@) ==> siblings_sorted(r@, (flat@.len() + 1) as nat),
{
    let mut path: Vec<i64> = Vec::new();
    let r = build_bank_children(None, flat, &mut path, flat.len() + 1);
    proof {
        lemma_tree_paths_never_repeat(r@, None, flat@, seq![], (flat@.len() + 1) as nat);
        if flat_sorted(flat@) {
            lemma_tree_siblings_sorted(r@, None, flat@, seq![], (flat@.len() + 1) as nat);
        }
    }
    r
}

pub proof fn lemma_kids_match(parent: Option<i64>, flat: Seq<FlatBankNode>, path: Seq<i64>)
    ensures
        forall|i: int| 0 <= i < kids(parent, flat, path).len() ==> (#[trigger] kids(parent, flat, path)[i]).parent_id
            == parent && !path.contains(kids(parent, flat, path)[i].id),
    decreases flat.len(),
{
    if flat.len() > 0 {
        lemma_kids_match(parent, flat.drop_last(), path);
        let prev = kids(parent, flat.drop_last(), path);
        assert forall|i: int| 0 <= i < kids(parent, flat, path).len() implies (#[trigger] kids(parent, flat, path)[i]).parent_id
            == parent && !path.contains(kids(parent, flat, path)[i].id) by {
            if i < prev.len() {
                assert(kids(parent, flat, path)[i] == prev[i]);
            }
        }
    }
}

/// Law: in the bank tree every folder sits under the folder its stored parent
/// names, and no folder appears again below itself.
pub proof fn lemma_tree_follows_parents(r: Seq<BankNode>, parent: Option<i64>, flat: Seq<FlatBankNode>, path: Seq<i64>, depth: nat)
    requires
        forest(r, parent, flat, path, depth),
    ensures
        forall|i: int| 0 <= i < r.len() ==> (#[trigger] r[i]).parent_id == parent && !path.contains(r[i].id),
        forall|i: int, j: int|
            0 <= i < r.len() && 0 <= j < r[i].children@.len() ==> (#[trigger] r[i].children@[j]).parent_id == Some(r[i].id)
                && !path.push(r[i].id).contains(r[i].children@[j].id),
{
    if depth > 0 {
        lemma_kids_match(parent, flat, path);
        let ks = kids(parent, flat, path);
        assert forall|i: int, j: int|
            0 <= i < r.len() && 0 <= j < r[i].children@.len() implies (#[trigger] r[i].children@[j]).parent_id == Some(r[i].id)
                && !path.push(r[i].id).contains(r[i].children@[j].id) by {
            assert(same_folder(r[i], ks[i]));
            assert(forest(r[i].children@, Some(ks[i].id), flat, path.push(ks[i].id), (depth - 1) as nat));
            lemma_kids_match(Some(ks[i].id), flat, path.push(ks[i].id));
        }
    }
}


/// No folder of `r` (or below it) repeats one of its ancestors: `path` holds
/// the ids above `r`, and each node adds its own id for the nodes below it.
pub open spec fn repeat_free(r: Seq<BankNode>, path: Seq<i64>, depth: nat) -> bool
    decreases depth,
{
    depth > 0 ==> forall|i: int| 0 <= i < r.len() ==> {
        &&& !path.contains((#[trigger] r[i]).id)
        &&& repeat_free(r[i].children@, path.push(r[i].id), (depth - 1) as nat)
    }
}

/// Law: along every path from a top folder down to a leaf of the bank tree,
/// no folder appears twice, however the stored parents loop.
pub proof fn lemma_tree_paths_never_repeat(r: Seq<BankNode>, parent: Option<i64>, flat: Seq<FlatBankNode>, path: Seq<i64>, depth: nat)
    requires
        forest(r, parent, flat, path, depth),
    ensures
        repeat_free(r, path, depth),
    decreases depth,
{
    if depth > 0 {
        lemma_kids_match(parent, flat, path);
        let ks = kids(parent, flat, path);
        assert forall|i: int| 0 <= i < r.len() implies {
            &&& !path.contains((#[trigger] r[i]).id)
            &&& repeat_free(r[i].children@, path.push(r[i].id), (depth - 1) as nat)
        } by {
            assert(same_folder(r[i], ks[i]));
            lemma_tree_paths_never_repeat(r[i].children@, Some(ks[i].id), flat, path.push(ks[i].id), (depth - 1) as nat);
        }
    }
}

/// Stored folder `a` comes no later than `b` in (place, id) order.
pub open spec fn flat_le(a: FlatBankNode, b: FlatBankNode) -> bool {
    a.sort_order < b.sort_order || (a.sort_order == b.sort_order && a.id <= b.id)
}

/// The stored folders are in (place, id) order, as the store lists them.
pub open spec fn flat_sorted(flat: Seq<FlatBankNode>) -> bool {
    forall|i: int, j: int| 0 <= i < j < flat.len() ==> flat_le(flat[i], flat[j])
}

/// Every list of siblings in `r`, and below it, is in (place, id) order.
pub open spec fn siblings_sorted(r: Seq<BankNode>, depth: nat) -> bool
    decreases depth,
{
    depth > 0 ==> {
        &&& forall|i: int, j: int| 0 <= i < j < r.len() ==> {
            ||| r[i].sort_order < r[j].sort_order
            ||| (r[i].sort_order == r[j].sort_order && r[i].id <= r[j].id)
        }
        &&& forall|i: int| 0 <= i < r.len() ==> siblings_sorted((#[trigger] r[i]).children@, (depth - 1) as nat)
    }
}

proof fn lemma_kids_in_flat(parent: Option<i64>, flat: Seq<FlatBankNode>, path: Seq<i64>)
    ensures
        forall|i: int| 0 <= i < kids(parent, flat, path).len() ==> exists|j: int|
            0 <= j < flat.len() && flat[j] == #[trigger] kids(parent, flat, path)[i],
    decreases flat.len(),
{
    if flat.len() > 0 {
        lemma_kids_in_flat(parent, flat.drop_last(), path);
        let prev = kids(parent, flat.drop_last(), path);
        assert forall|i: int| 0 <= i < kids(parent, flat, path).len() implies exists|j: int|
            0 <= j < flat.len() && flat[j] == #[trigger] kids(parent, flat, path)[i] by {
            if i < prev.len() {
                assert(kids(parent, flat, path)[i] == prev[i]);
                let j = choose|j: int| 0 <= j < flat.drop_last().len() && flat.drop_last()[j] == prev[i];
                assert(flat[j] == prev[i]);
            } else {
                assert(kids(parent, flat, path)[i] == flat[flat.len() - 1]);
            }
        }
    }
}

proof fn lemma_kids_sorted(parent: Option<i64>, flat: Seq<FlatBankNode>, path: Seq<i64>)
    requires
        flat_sorted(flat),
    ensures
        forall|i: int, j: int| 0 <= i < j < kids(parent, flat, path).len() ==> flat_le(
            #[trigger] kids(parent, flat, path)[i],
            #[trigger] kids(parent, flat, path)[j],
        ),
    decreases flat.len(),
{
    if flat.len() > 0 {
        let d = flat.drop_last();
        assert(flat_sorted(d)) by {
            assert forall|i: int, j: int| 0 <= i < j < d.len() implies flat_le(d[i], d[j]) by {
                assert(d[i] == flat[i] && d[j] == flat[j]);
            }
        }
        lemma_kids_sorted(parent, d, path);
        lemma_kids_in_flat(parent, d, path);
        let prev = kids(parent, d, path);
        let ks = kids(parent, flat, path);
        assert forall|i: int, j: int| 0 <= i < j < ks.len() implies flat_le(#[trigger] ks[i], #[trigger] ks[j]) by {
            assert(ks[i] == prev[i]);
            if j < prev.len() {
                assert(ks[j] == prev[j]);
            } else {
                assert(ks[j] == flat[flat.len() - 1]);
                let k = choose|k: int| 0 <= k < d.len() && d[k] == prev[i];
                assert(flat[k] == prev[i]);
            }
        }
    }
}

/// Law: when the stored folders come in (place, id) order, as the store
/// lists them, every list of siblings in the tree is in that order too.
pub proof fn lemma_tree_siblings_sorted(r: Seq<BankNode>, parent: Option<i64>, flat: Seq<FlatBankNode>, path: Seq<i64>, depth: nat)
    requires
        flat_sorted(flat),
        forest(r, parent, flat, path, depth),
    ensures
        siblings_sorted(r, depth),
    decreases depth,
{
    if depth > 0 {
        let ks = kids(parent, flat, path);
        lemma_kids_sorted(parent, flat, path);
        assert forall|i: int, j: int| 0 <= i < j < r.len() implies {
            ||| r[i].sort_order < r[j].sort_order
            ||| (r[i].sort_order == r[j].sort_order && r[i].id <= r[j].id)
        } by {
            assert(same_folder(r[i], ks[i]));
            assert(same_folder(r[j], ks[j]));
            assert(flat_le(ks[i], ks[j]));
        }
        assert forall|i: int| 0 <= i < r.len() implies siblings_sorted((#[trigger] r[i]).children@, (depth - 1) as nat) by {
            assert(same_folder(r[i], ks[i]));
            lemma_tree_siblings_sorted(r[i].children@, Some(ks[i].id), flat, path.push(ks[i].id), (depth - 1) as nat);
        }
    }
}

pub open spec fn folder_ids(flat: Seq<FlatBankNode>) -> Seq<i64> {
    flat.map_values(|n: FlatBankNode| n.id)
}

proof fn lemma_kids_from_flat(parent: Option<i64>, flat: Seq<FlatBankNode>, path: Seq<i64>)
    ensures
        forall|i: int| 0 <= i < kids(parent, flat, path).len() ==> folder_ids(flat).contains(
            (#[trigger] kids(parent, flat, path)[i]).id,
        ),
    decreases flat.len(),
{
    if flat.len() > 0 {
        lemma_kids_from_flat(parent, flat.drop_last(), path);
        let prev = kids(parent, flat.drop_last(), path);
        assert forall|i: int| 0 <= i < kids(parent, flat, path).len() implies folder_ids(flat).contains(
            (#[trigger] kids(parent, flat, path)[i]).id,
        ) by {
            if i < prev.len() {
                assert(kids(parent, flat, path)[i] == prev[i]);
                let j = choose|j: int| 0 <= j < folder_ids(flat.drop_last()).len() && folder_ids(flat.drop_last())[j] == prev[i].id;
                assert(folder_ids(flat)[j] == prev[i].id);
            } else {
                assert(kids(parent, flat, path)[i] == flat.last());
                assert(folder_ids(flat)[flat.len() - 1] == flat.last().id);
            }
        }
    }
}

/// Once the path from the root holds as many distinct stored folders as there
/// are stored folders, no folder is left below it.
proof fn lemma_long_path_has_no_kids(parent: Option<i64>, flat: Seq<FlatBankNode>, path: Seq<i64>)
    requires
        path.no_duplicates(),
        forall|k: int| 0 <= k < path.len() ==> folder_ids(flat).contains(#[trigger] path[k]),
        path.len() >= flat.len(),
    ensures
        kids(parent, flat, path).len() == 0,
{
    if kids(parent, flat, path).len() > 0 {
        lemma_kids_match(parent, flat, path);
        lemma_kids_from_flat(parent, flat, path);
        let x = kids(parent, flat, path)[0].id;
        let p2 = path.push(x);
        assert(p2.no_duplicates()) by {
            assert forall|a: int, b: int| 0 <= a < p2.len() && 0 <= b < p2.len() && a != b implies p2[a] != p2[b] by {
                if a < path.len() && b < path.len() {
                    assert(p2[a] == path[a] && p2[b] == path[b]);
                } else if a < path.len() {
                    assert(p2[a] == path[a]);
                } else if b < path.len() {
                    assert(p2[b] == path[b]);
                }
            }
        }
        let ids = folder_ids(flat);
        assert(p2.to_set().subset_of(ids.to_set())) by {
            assert forall|v: i64| p2.to_set().contains(v) implies ids.to_set().contains(v) by {
                let k = choose|k: int| 0 <= k < p2.len() && p2[k] == v;
                if k < path.len() {
                    assert(p2[k] == path[k]);
                }
            }
        }
        p2.unique_seq_to_set();
        ids.lemma_cardinality_of_set();
        vstd::set_lib::lemma_len_subset(p2.to_set(), ids.to_set());
        assert(false);
    }
}

/// No folder is cut off where the depth runs out: every path the tree takes
/// ends at a folder without subfolders.
pub open spec fn nothing_cut(parent: Option<i64>, flat: Seq<FlatBankNode>, path: Seq<i64>, depth: nat) -> bool
    decreases depth,
{
    let ks = kids(parent, flat, path);
    if depth == 0 {
        ks.len() == 0
    } else {
        forall|i: int| 0 <= i < ks.len() ==> nothing_cut(Some((#[trigger] ks[i]).id), flat, path.push(ks[i].id), (depth - 1) as nat)
    }
}

proof fn lemma_nothing_cut_from(parent: Option<i64>, flat: Seq<FlatBankNode>, path: Seq<i64>, depth: nat)
    requires
        path.no_duplicates(),
        forall|k: int| 0 <= k < path.len() ==> folder_ids(flat).contains(#[trigger] path[k]),
        path.len() + depth >= flat.len() + 1,
    ensures
        nothing_cut(parent, flat, path, depth),
    decreases depth,
{
    if depth == 0 {
        lemma_long_path_has_no_kids(parent, flat, path);
    } else {
        let ks = kids(parent, flat, path);
        lemma_kids_match(parent, flat, path);
        lemma_kids_from_flat(parent, flat, path);
        assert forall|i: int| 0 <= i < ks.len() implies nothing_cut(Some((#[trigger] ks[i]).id), flat, path.push(ks[i].id), (depth - 1) as nat) by {
            let p2 = path.push(ks[i].id);
            assert(p2.no_duplicates()) by {
                assert forall|a: int, b: int| 0 <= a < p2.len() && 0 <= b < p2.len() && a != b implies p2[a] != p2[b] by {
                    if a < path.len() && b < path.len() {
                        assert(p2[a] == path[a] && p2[b] == path[b]);
                    } else if a < path.len() {
                        assert(p2[a] == path[a]);
                    } else if b < path.len() {
                        assert(p2[b] == path[b]);
                    }
                }
            }
            assert forall|k: int| 0 <= k < p2.len() implies folder_ids(flat).contains(#[trigger] p2[k]) by {
                if k < path.len() {
                    assert(p2[k] == path[k]);
                }
            }
            lemma_nothing_cut_from(Some(ks[i].id), flat, p2, (depth - 1) as nat);
        }
    }
}

/// Law: the depth the bank tree is built to never cuts a folder off: wherever
/// the depth runs out, the folder reached has no subfolders to show.
pub proof fn lemma_tree_depth_suffices(flat: Seq<FlatBankNode>)
    ensures
        nothing_cut(None, flat, seq![], (flat.len() + 1) as nat),
{
    lemma_nothing_cut_from(None, flat, seq![], (flat.len() + 1) as nat);
}

// ---------------------------------------------------------------------------
// Moving a folder
// ---------------------------------------------------------------------------

pub const MOVE_INTO_ITSELF: &'static str = "階層を自分自身の中へ移動できません";
pub const MOVE_TARGET_MISSING: &'static str = "移動先が見つかりません";
pub const MOVE_INTO_DESCENDANT: &'static str = "子階層の中へ移動すると循環するため実行できません";

/// The position of the first stored folder with the id, from `i` on.
pub open spec fn find_node(flat: Seq<FlatBankNode>, x: i64, i: int) -> Option<int>
    decreases flat.len() - i,
{
    if i < 0 || i >= flat.len() {
        None
    } else if flat[i].id == x {
        Some(i)
    } else {
        find_node(flat, x, i + 1)
    }
}

pub open spec fn has_id(flat: Seq<FlatBankNode>, x: i64) -> bool {
    find_node(flat, x, 0) is Some
}

/// The stored parent of the folder with the id; none for a top folder or an unknown id.
pub open spec fn parent_in(flat: Seq<FlatBankNode>, x: i64) -> Option<i64> {
    match find_node(flat, x, 0) {
        Some(i) => flat[i].parent_id,
        None => None,
    }
}

/// `a` is `x` or one of its ancestors, found within `fuel` folders going up.
pub open spec fn reaches(flat: Seq<FlatBankNode>, x: i64, a: i64, fuel: nat) -> bool
    decreases fuel,
{
    fuel > 0 && (x == a || match parent_in(flat, x) {
        Some(q) => reaches(flat, q, a, (fuel - 1) as nat),
        None => false,
    })
}

/// Why a folder may not move under a new parent, if it may not: into itself,
/// under a folder that does not exist, or under one of its own descendants.
pub open spec fn move_refusal(flat: Seq<FlatBankNode>, id: i64, new_parent: Option<i64>) -> Option<Seq<char>> {
    match new_parent {
        None => None,
        Some(p) => if p == id {
            Some(MOVE_INTO_ITSELF@)
        } else if !has_id(flat, p) {
            Some(MOVE_TARGET_MISSING@)
        } else if reaches(flat, p, id, (flat.len() + 1) as nat) {
            Some(MOVE_INTO_DESCENDANT@)
        } else {
            None
        },
    }
}

proof fn lemma_find_node_bounds(flat: Seq<FlatBankNode>, x: i64, j: int)
    requires
        0 <= j,
    ensures
        find_node(flat, x, j) matches Some(i) ==> j <= i < flat.len() && flat[i].id == x,
    decreases flat.len() - j,
{
    if j < flat.len() && flat[j].id != x {
        lemma_find_node_bounds(flat, x, j + 1);
    }
}

fn find_node_exec(flat: &Vec<FlatBankNode>, x: i64) -> (r: Option<usize>)
    ensures
        match r {
            Some(i) => find_node(flat@, x, 0) == Some(i as int) && i < flat.len(),
            None => find_node(flat@, x, 0) is None,
        },
{
    proof {
        lemma_find_node_bounds(flat@, x, 0);
    }
    let mut i: usize = 0;
    while i < flat.len()
        invariant
            i <= flat.len(),
            find_node(flat@, x, 0) == find_node(flat@, x, i as int),
        decreases flat.len() - i,
    {
        if flat[i].id == x {
            return Some(i);
        }
        i += 1;
    }
    None
}

/// Checks a move of folder `id` under `new_parent` against the stored folders.
pub fn check_bank_move(flat: &Vec<FlatBankNode>, id: i64, new_parent: Option<i64>) -> (r: Result<(), String>)
    requires
        flat.len() < usize::MAX,
    ensures
        match move_refusal(flat@, id, new_parent) {
            Some(m) => r matches Err(e) && e@ == m,
            None => r is Ok,
        },
{
    let p = match new_parent {
        None => {
            return Ok(());
        },
        Some(p) => p,
    };
    if p == id {
        return Err(crate::text::string_of(&crate::text::chars_of(MOVE_INTO_ITSELF)));
    }
    if find_node_exec(flat, p).is_none() {
        return Err(crate::text::string_of(&crate::text::chars_of(MOVE_TARGET_MISSING)));
    }
    let mut cur = p;
    let mut fuel: usize = flat.len() + 1;
    let ghost full = (flat@.len() + 1) as nat;
    while fuel > 0
        invariant
            new_parent == Some(p),
            p != id,
            has_id(flat@, p),
            full == flat@.len() + 1,
            reaches(flat@, p, id, full) == reaches(flat@, cur, id, fuel as nat),
        decreases fuel,
    {
        if cur == id {
            return Err(crate::text::string_of(&crate::text::chars_of(MOVE_INTO_DESCENDANT)));
        }
        let found = find_node_exec(flat, cur);
        match found {
            Some(i) => {
                assert(find_node(flat@, cur, 0) == Some(i as int));
                assert(parent_in(flat@, cur) == flat@[i as int].parent_id);
                match flat[i].parent_id {
                    Some(q) => {
                        assert(reaches(flat@, cur, id, fuel as nat) == reaches(flat@, q, id, (fuel - 1) as nat));
                        cur = q;
                        fuel -= 1;
                    },
                    None => {
                        assert(!reaches(flat@, cur, id, fuel as nat));
                        return Ok(());
                    },
                }
            },
            None => {
                assert(parent_in(flat@, cur) is None);
                assert(!reaches(flat@, cur, id, fuel as nat));
                return Ok(());
            },
        }
    }
    Ok(())
}

/// The stored folders after folder `id` moved under `new_parent`.
pub open spec fn moved(flat: Seq<FlatBankNode>, id: i64, new_parent: Option<i64>) -> Seq<FlatBankNode> {
    flat.map_values(|n: FlatBankNode| if n.id == id { FlatBankNode { parent_id: new_parent, ..n } } else { n })
}

/// Every folder ranks above its stored parent.
pub open spec fn ranked(flat: Seq<FlatBankNode>, r: spec_fn(i64) -> int) -> bool {
    forall|i: int| 0 <= i < flat.len() ==> match (#[trigger] flat[i]).parent_id {
        Some(q) => has_id(flat, q) ==> r(q) < r(flat[i].id),
        None => true,
    }
}

/// No folder is its own ancestor: the folders can be ranked so that each
/// ranks above its parent.
pub open spec fn acyclic(flat: Seq<FlatBankNode>) -> bool {
    exists|r: spec_fn(i64) -> int| ranked(flat, r)
}


/// How many of the first `k` stored folders rank at most `v`.
pub open spec fn rank_count(flat: Seq<FlatBankNode>, r: spec_fn(i64) -> int, v: int, k: int) -> nat
    decreases k,
{
    if k <= 0 {
        0
    } else {
        rank_count(flat, r, v, k - 1) + if r(flat[k - 1].id) <= v { 1nat } else { 0nat }
    }
}

proof fn lemma_rank_count_bounds(flat: Seq<FlatBankNode>, r: spec_fn(i64) -> int, v1: int, v2: int, k: int)
    requires
        0 <= k <= flat.len(),
        v1 <= v2,
    ensures
        rank_count(flat, r, v1, k) <= rank_count(flat, r, v2, k),
        rank_count(flat, r, v2, k) <= k,
    decreases k,
{
    if k > 0 {
        lemma_rank_count_bounds(flat, r, v1, v2, k - 1);
    }
}

proof fn lemma_rank_count_gap(flat: Seq<FlatBankNode>, r: spec_fn(i64) -> int, v1: int, v2: int, i0: int, k: int)
    requires
        0 <= i0 < k <= flat.len(),
        v1 < r(flat[i0].id) <= v2,
    ensures
        rank_count(flat, r, v1, k) + 1 <= rank_count(flat, r, v2, k),
    decreases k,
{
    if k - 1 == i0 {
        lemma_rank_count_bounds(flat, r, v1, v2, k - 1);
    } else {
        lemma_rank_count_gap(flat, r, v1, v2, i0, k - 1);
    }
}

proof fn lemma_reaches_more_fuel(flat: Seq<FlatBankNode>, x: i64, a: i64, f: nat, g: nat)
    requires
        reaches(flat, x, a, f),
        f <= g,
    ensures
        reaches(flat, x, a, g),
    decreases f,
{
    if x != a {
        let q = parent_in(flat, x)->Some_0;
        lemma_reaches_more_fuel(flat, q, a, (f - 1) as nat, (g - 1) as nat);
    }
}

/// The fuel that reaches an ancestor of a stored folder in a ranked store.
pub open spec fn chain_fuel(flat: Seq<FlatBankNode>, r: spec_fn(i64) -> int, x: i64) -> nat {
    if has_id(flat, x) {
        rank_count(flat, r, r(x), flat.len() as int)
    } else {
        0
    }
}

proof fn lemma_short_chain(flat: Seq<FlatBankNode>, r: spec_fn(i64) -> int, x: i64, a: i64, f: nat)
    requires
        ranked(flat, r),
        reaches(flat, x, a, f),
    ensures
        reaches(flat, x, a, chain_fuel(flat, r, x) + 1),
    decreases f,
{
    if x != a {
        let i0 = find_node(flat, x, 0)->Some_0;
        lemma_find_node_bounds(flat, x, 0);
        let q = flat[i0].parent_id->Some_0;
        lemma_short_chain(flat, r, q, a, (f - 1) as nat);
        let n = flat.len() as int;
        if has_id(flat, q) {
            assert(r(q) < r(flat[i0].id));
            lemma_rank_count_gap(flat, r, r(q), r(x), i0, n);
        } else {
            lemma_rank_count_gap(flat, r, r(x) - 1, r(x), i0, n);
        }
        lemma_reaches_more_fuel(flat, q, a, chain_fuel(flat, r, q) + 1, chain_fuel(flat, r, x));
    }
}

/// In a ranked store, an ancestor reached at all is reached within as many
/// steps as there are folders, plus one.
proof fn lemma_reaches_within_store(flat: Seq<FlatBankNode>, r: spec_fn(i64) -> int, x: i64, a: i64, f: nat)
    requires
        ranked(flat, r),
        reaches(flat, x, a, f),
    ensures
        reaches(flat, x, a, (flat.len() + 1) as nat),
{
    lemma_short_chain(flat, r, x, a, f);
    if has_id(flat, x) {
        lemma_rank_count_bounds(flat, r, r(x), r(x), flat.len() as int);
    }
    lemma_reaches_more_fuel(flat, x, a, chain_fuel(flat, r, x) + 1, (flat.len() + 1) as nat);
}

proof fn lemma_find_node_moved(flat: Seq<FlatBankNode>, id: i64, new_parent: Option<i64>, x: i64, j: int)
    requires
        0 <= j,
    ensures
        find_node(moved(flat, id, new_parent), x, j) == find_node(flat, x, j),
    decreases flat.len() - j,
{
    if j < flat.len() {
        lemma_find_node_moved(flat, id, new_parent, x, j + 1);
    }
}

proof fn lemma_find_node_unique(flat: Seq<FlatBankNode>, i: int, j: int)
    requires
        folder_ids(flat).no_duplicates(),
        0 <= j <= i < flat.len(),
    ensures
        find_node(flat, flat[i].id, j) == Some(i),
    decreases i - j,
{
    if j < i {
        assert(folder_ids(flat)[j] != folder_ids(flat)[i]);
        lemma_find_node_unique(flat, i, j + 1);
    }
}

/// A move that `check_bank_move` allows keeps the folders free of cycles:
/// where no folder was its own ancestor before, none is after.
pub proof fn lemma_allowed_move_keeps_tree_acyclic(flat: Seq<FlatBankNode>, id: i64, new_parent: Option<i64>)
    requires
        folder_ids(flat).no_duplicates(),
        acyclic(flat),
        move_refusal(flat, id, new_parent) is None,
    ensures
        acyclic(moved(flat, id, new_parent)),
{
    let r = choose|r: spec_fn(i64) -> int| ranked(flat, r);
    let m = moved(flat, id, new_parent);
    assert forall|x: i64| #[trigger] has_id(m, x) == has_id(flat, x) by {
        lemma_find_node_moved(flat, id, new_parent, x, 0);
    }
    match new_parent {
        None => {
            assert(ranked(m, r));
        },
        Some(p) => {
            let down = |y: i64| exists|f: nat| reaches(flat, y, id, f);
            let k = if r(p) - r(id) + 1 > 0 { r(p) - r(id) + 1 } else { 0 };
            let r2 = |y: i64| if down(y) { r(y) + k } else { r(y) };
            assert(reaches(flat, id, id, 1));
            assert(down(id));
            if down(p) {
                let f = choose|f: nat| reaches(flat, p, id, f);
                lemma_reaches_within_store(flat, r, p, id, f);
            }
            assert forall|i: int| 0 <= i < m.len() implies match (#[trigger] m[i]).parent_id {
                Some(q) => has_id(m, q) ==> r2(q) < r2(m[i].id),
                None => true,
            } by {
                let y = flat[i].id;
                if y != id {
                    if let Some(q) = flat[i].parent_id {
                        if has_id(flat, q) {
                            assert(r(q) < r(y));
                            if down(q) {
                                let f = choose|f: nat| reaches(flat, q, id, f);
                                lemma_find_node_unique(flat, i, 0);
                                assert(reaches(flat, y, id, f + 1));
                            }
                        }
                    }
                }
            }
            assert(ranked(m, r2));
        },
    }
}

// ---------------------------------------------------------------------------
// Reordering siblings
// ---------------------------------------------------------------------------

pub const REORDER_FOLDER_MISSING: &'static str = "階層が見つかりません";
pub const REORDER_NODE_MISSING: &'static str = "対象が見つかりません";

/// The first position of `x` in `s` at or after `i`.
pub open spec fn first_from(s: Seq<i64>, x: i64, i: int) -> Option<int>
    decreases s.len() - i,
{
    if i < 0 || i >= s.len() {
        None
    } else if s[i] == x {
        Some(i)
    } else {
        first_from(s, x, i + 1)
    }
}

pub open spec fn sign(d: int) -> int {
    if d > 0 { 1 } else if d < 0 { -1 } else { 0 }
}

/// `s` with the entries at `i` and `j` exchanged.
pub open spec fn swapped(s: Seq<i64>, i: int, j: int) -> Seq<i64> {
    s.update(i, s[j]).update(j, s[i])
}

/// A folder moved one place among its siblings, towards the sign of `delta`:
/// the new order, or none where there is nothing to do (no step, or already at
/// that end).
pub open spec fn folder_reorder(s: Seq<i64>, id: i64, delta: int) -> Result<Option<Seq<i64>>, Seq<char>> {
    match first_from(s, id, 0) {
        None => Err(REORDER_FOLDER_MISSING@),
        Some(p) => {
            let t = p + sign(delta);
            if delta == 0 || t < 0 || t >= s.len() {
                Ok(None)
            } else {
                Ok(Some(swapped(s, p, t)))
            }
        },
    }
}

/// A node of the subject/field/unit tree exchanged with the sibling `delta`
/// places away: the new order, or none where that place is past either end.
pub open spec fn node_reorder(s: Seq<i64>, id: i64, delta: int) -> Result<Option<Seq<i64>>, Seq<char>> {
    match first_from(s, id, 0) {
        None => Err(REORDER_NODE_MISSING@),
        Some(p) => {
            let t = p + delta;
            if t < 0 || t >= s.len() {
                Ok(None)
            } else {
                Ok(Some(swapped(s, p, t)))
            }
        },
    }
}

proof fn lemma_first_from_bounds(s: Seq<i64>, x: i64, j: int)
    requires
        0 <= j,
    ensures
        first_from(s, x, j) matches Some(i) ==> j <= i < s.len() && s[i] == x,
        first_from(s, x, j) is None ==> forall|k: int| j <= k < s.len() ==> s[k] != x,
    decreases s.len() - j,
{
    if j < s.len() && s[j] != x {
        lemma_first_from_bounds(s, x, j + 1);
    }
}

fn position_of(s: &Vec<i64>, x: i64) -> (r: Option<usize>)
    ensures
        match r {
            Some(i) => first_from(s@, x, 0) == Some(i as int) && i < s.len(),
            None => first_from(s@, x, 0) is None,
        },
{
    proof {
        lemma_first_from_bounds(s@, x, 0);
    }
    let mut i: usize = 0;
    while i < s.len()
        invariant
            i <= s.len(),
            first_from(s@, x, 0) == first_from(s@, x, i as int),
        decreases s.len() - i,
    {
        if s[i] == x {
            return Some(i);
        }
        i += 1;
    }
    None
}

fn swap_entries(s: &Vec<i64>, i: usize, j: usize) -> (r: Vec<i64>)
    requires
        i < s.len(),
        j < s.len(),
    ensures
        r@ == swapped(s@, i as int, j as int),
{
    let mut r = s.clone();
    assert(r@ =~= s@);
    let a = s[i];
    let b = s[j];
    r.set(i, b);
    r.set(j, a);
    r
}

/// Moves folder `id` one place among its siblings (`siblings` in their order).
pub fn reorder_bank_node(siblings: &Vec<i64>, id: i64, delta: i64) -> (r: Result<Option<Vec<i64>>, String>)
    ensures
        match folder_reorder(siblings@, id, delta as int) {
            Ok(None) => r matches Ok(None),
            Ok(Some(o)) => r matches Ok(Some(v)) && v@ == o,
            Err(m) => r matches Err(e) && e@ == m,
        },
{
    let p = match position_of(siblings, id) {
        Some(p) => p,
        None => {
            return Err(crate::text::string_of(&crate::text::chars_of(REORDER_FOLDER_MISSING)));
        },
    };
    if delta == 0 {
        return Ok(None);
    }
    if delta > 0 {
        if p + 1 >= siblings.len() {
            return Ok(None);
        }
        Ok(Some(swap_entries(siblings, p, p + 1)))
    } else {
        if p == 0 {
            return Ok(None);
        }
        Ok(Some(swap_entries(siblings, p, p - 1)))
    }
}

/// Exchanges node `id` with the sibling `delta` places away (`siblings` in
/// their order).
pub fn move_tree_node(siblings: &Vec<i64>, id: i64, delta: i64) -> (r: Result<Option<Vec<i64>>, String>)
    ensures
        match node_reorder(siblings@, id, delta as int) {
            Ok(None) => r matches Ok(None),
            Ok(Some(o)) => r matches Ok(Some(v)) && v@ == o,
            Err(m) => r matches Err(e) && e@ == m,
        },
{
    let p = match position_of(siblings, id) {
        Some(p) => p,
        None => {
            return Err(crate::text::string_of(&crate::text::chars_of(REORDER_NODE_MISSING)));
        },
    };
    let t: i128 = p as i128 + delta as i128;
    if t < 0 || t >= siblings.len() as i128 {
        return Ok(None);
    }
    Ok(Some(swap_entries(siblings, p, t as usize)))
}

proof fn lemma_first_from_unique(s: Seq<i64>, i: int, j: int)
    requires
        s.no_duplicates(),
        0 <= j <= i < s.len(),
    ensures
        first_from(s, s[i], j) == Some(i),
    decreases i - j,
{
    if j < i {
        lemma_first_from_unique(s, i, j + 1);
    }
}

/// Moving a folder one place and then back again restores its siblings' order.
pub proof fn lemma_reorder_round_trip(s: Seq<i64>, id: i64, delta: int)
    requires
        s.no_duplicates(),
        folder_reorder(s, id, delta) is Ok,
        folder_reorder(s, id, delta)->Ok_0 is Some,
    ensures
        folder_reorder(folder_reorder(s, id, delta)->Ok_0->Some_0, id, -delta) == Ok::<Option<Seq<i64>>, Seq<char>>(Some(s)),
{
    let p = first_from(s, id, 0)->Some_0;
    lemma_first_from_bounds(s, id, 0);
    let t = p + sign(delta);
    let o = swapped(s, p, t);
    assert(o.no_duplicates()) by {
        assert forall|a: int, b: int| 0 <= a < o.len() && 0 <= b < o.len() && a != b implies o[a] != o[b] by {
            let sa = if a == p { t } else if a == t { p } else { a };
            let sb = if b == p { t } else if b == t { p } else { b };
            assert(o[a] == s[sa]);
            assert(o[b] == s[sb]);
        }
    }
    assert(o[t] == id);
    lemma_first_from_unique(o, t, 0);
    assert(swapped(o, t, p) =~= s);
}

/// The table of a kind of node of the subject/field/unit tree, and the column
/// that names its parent.
pub open spec fn tree_table(kind: Seq<char>) -> Result<(Seq<char>, Option<Seq<char>>), Seq<char>> {
    if kind == "subject"@ {
        Ok(("subjects"@, None))
    } else if kind == "field"@ {
        Ok(("fields"@, Some("subject_id"@)))
    } else if kind == "unit"@ {
        Ok(("units"@, Some("field_id"@)))
    } else {
        Err("不明な階層種別: "@ + kind)
    }
}

pub fn table_for(kind: &str) -> (r: Result<(&'static str, Option<&'static str>), String>)
    ensures
        match tree_table(kind@) {
            Ok((t, c)) => r matches Ok(x) && x.0@ == t && match c {
                Some(cv) => x.1 matches Some(xc) && xc@ == cv,
                None => x.1 is None,
            },
            Err(m) => r matches Err(e) && e@ == m,
        },
{
    let k = crate::text::chars_of(kind);
    if crate::text::is_str(&k, "subject") {
        Ok(("subjects", None))
    } else if crate::text::is_str(&k, "field") {
        Ok(("fields", Some("subject_id")))
    } else if crate::text::is_str(&k, "unit") {
        Ok(("units", Some("field_id")))
    } else {
        let mut m = crate::text::chars_of("不明な階層種別: ");
        crate::text::push_all(&mut m, &k);
        Err(crate::text::string_of(&m))
    }
}

// ---------------------------------------------------------------------------
// Deleting a folder
// ---------------------------------------------------------------------------

pub const DELETE_ROOT_HAS_NO_PARENT: &'static str = "ルート階層には移動先の親がありません";
pub const DELETE_BAD_STRATEGY: &'static str = "削除方法が不正です";

/// What deleting a folder does with what it holds.
#[derive(Clone, Copy, Debug, PartialEq, Eq)]
pub enum DeletePlan {
    /// Problems, parts and subfolders move up to this parent folder.
    MoveToParent(i64),
    /// The subtree's problems are deleted and its parts leave the bank.
    DeleteAll,
}

/// The plan for the strategy asked for: `move_to_parent` (not for a top
/// folder) or `delete_all`; any other strategy is refused.
pub open spec fn delete_plan(strategy: Seq<char>, parent_id: Option<i64>) -> Result<DeletePlan, Seq<char>> {
    if strategy == "move_to_parent"@ {
        match parent_id {
            Some(p) => Ok(DeletePlan::MoveToParent(p)),
            None => Err(DELETE_ROOT_HAS_NO_PARENT@),
        }
    } else if strategy == "delete_all"@ {
        Ok(DeletePlan::DeleteAll)
    } else {
        Err(DELETE_BAD_STRATEGY@)
    }
}

/// Decides how folder deletion proceeds, given the folder's stored parent.
pub fn delete_bank_node(strategy: &str, parent_id: Option<i64>) -> (r: Result<DeletePlan, String>)
    ensures
        match delete_plan(strategy@, parent_id) {
            Ok(p) => r == Ok::<DeletePlan, String>(p),
            Err(m) => r matches Err(e) && e@ == m,
        },
{
    let s = crate::text::chars_of(strategy);
    if crate::text::is_str(&s, "move_to_parent") {
        match parent_id {
            Some(p) => Ok(DeletePlan::MoveToParent(p)),
            None => Err(crate::text::string_of(&crate::text::chars_of(DELETE_ROOT_HAS_NO_PARENT))),
        }
    } else if crate::text::is_str(&s, "delete_all") {
        Ok(DeletePlan::DeleteAll)
    } else {
        Err(crate::text::string_of(&crate::text::chars_of(DELETE_BAD_STRATEGY)))
    }
}

/// The places of a deleted folder's subfolders under its parent: in their
/// order, from `next` (one past the parent's last place) on.
pub fn moved_child_orders(children: &Vec<i64>, next: i64) -> (r: Vec<(i64, i64)>)
    requires
        next + children.len() <= i64::MAX,
        children.len() <= i64::MAX,
    ensures
        r.len() == children.len(),
        forall|k: int| 0 <= k < r.len() ==> #[trigger] r@[k].0 == children@[k] && r@[k].1 == next + k,
{
    let mut r: Vec<(i64, i64)> = Vec::new();
    let mut k: usize = 0;
    while k < children.len()
        invariant
            k <= children.len(),
            next + children.len() <= i64::MAX,
            children.len() <= i64::MAX,
            r.len() == k,
            forall|j: int| 0 <= j < k ==> #[trigger] r@[j].0 == children@[j] && r@[j].1 == next + j,
        decreases children.len() - k,
    {
        let o: i64 = next + k as i64;
        let ghost before = r@;
        r.push((children[k], o));
        assert(r@ == before.push((children@[k as int], o)));
        k += 1;
    }
    r
}

/// Whether the bank holds anything yet, given how many subjects it has.
pub fn has_any_data(subject_count: i64) -> (r: bool)
    ensures
        r == (subject_count > 0),
{
    subject_count > 0
}

} // verus!
