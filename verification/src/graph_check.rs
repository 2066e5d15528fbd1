//! The rules of graph documents that do not compare numbers: which keys an
//! object may hold, the application that wrote a plane graph, colours, and
//! the short texts shown on a drawing.
use vstd::prelude::*;
use crate::text::{chars_of, is_cc, is_control, is_str, push_all, push_str, string_of};

verus! {

pub const UNKNOWN_KEY: &'static str = " は未対応の項目です";
pub const GRAPH_APP_NAME: &'static str = "MathGraph PDF Studio";
pub const GRAPH_VERSION_UNSUPPORTED: &'static str = "未対応のgraph.json versionです";
pub const GRAPH_APP_WRONG: &'static str = "graph.json のappNameが不正です";
/// How many vertex names a solid may have, and how long each may be.
pub const MAX_VERTEX_NAMES: usize = 100;
pub const MAX_VERTEX_NAME_CHARS: usize = 30;

/// The first of `keys` that `allowed` does not hold.
pub open spec fn unknown_key(keys: Seq<Seq<char>>, allowed: Seq<Seq<char>>) -> Option<Seq<char>>
    decreases keys.len(),
{
    if keys.len() == 0 {
        None
    } else if !allowed.contains(keys[0]) {
        Some(keys[0])
    } else {
        unknown_key(keys.drop_first(), allowed)
    }
}

pub open spec fn str_views(v: Seq<&str>) -> Seq<Seq<char>> {
    v.map_values(|s: &str| s@)
}

pub open spec fn string_views(v: Seq<String>) -> Seq<Seq<char>> {
    v.map_values(|s: String| s@)
}

fn allowed_contains(allowed: &[&str], k: &Vec<char>) -> (b: bool)
    ensures
        b == str_views(allowed@).contains(k@),
{
    let ghost av = str_views(allowed@);
    let mut i: usize = 0;
    while i < allowed.len()
        invariant
            i <= allowed@.len(),
            av == str_views(allowed@),
            forall|j: int| 0 <= j < i ==> av[j] != k@,
        decreases allowed@.len() - i,
    {
        assert(av[i as int] == allowed@[i as int]@);
        if is_str(k, allowed[i]) {
            assert(av.contains(k@));
            return true;
        }
        i += 1;
    }
    false
}

/// Refuses an object of the document at `path` that holds a key the format
/// does not know, naming the first such key in the order given.
pub fn check_known_keys(path: &str, keys: &Vec<String>, allowed: &[&str]) -> (r: Result<(), String>)
    ensures
        match unknown_key(string_views(keys@), str_views(allowed@)) {
            Some(k) => r matches Err(e) && e@ == path@ + "."@ + k + UNKNOWN_KEY@,
            None => r is Ok,
        },
{
    let ghost kv = string_views(keys@);
    let ghost av = str_views(allowed@);
    let mut i: usize = 0;
    assert(kv.skip(0) =~= kv);
    while i < keys.len()
        invariant
            i <= keys.len(),
            kv == string_views(keys@),
            av == str_views(allowed@),
            unknown_key(kv, av) == unknown_key(kv.skip(i as int), av),
        decreases keys.len() - i,
    {
        let k = chars_of(keys[i].as_str());
        assert(kv.skip(i as int)[0] == k@);
        assert(kv.skip(i as int).drop_first() =~= kv.skip(i + 1));
        if !allowed_contains(allowed, &k) {
            let mut m = chars_of(path);
            push_str(&mut m, ".");
            push_all(&mut m, &k);
            push_str(&mut m, UNKNOWN_KEY);
            return Err(string_of(&m));
        }
        i += 1;
    }
    assert(kv.skip(i as int).len() == 0);
    Ok(())
}

pub open spec fn is_hex_digit(c: char) -> bool {
    ('0' <= c && c <= '9') || ('a' <= c && c <= 'f') || ('A' <= c && c <= 'F')
}

/// A colour written `#` and six hexadecimal digits.
pub open spec fn hex_color(s: Seq<char>) -> bool {
    &&& s.len() == 7
    &&& s[0] == '#'
    &&& forall|i: int| 1 <= i < 7 ==> is_hex_digit(#[trigger] s[i])
}

pub fn is_hex_color(text: &str) -> (b: bool)
    ensures
        b == hex_color(text@),
{
    let c = chars_of(text);
    if c.len() != 7 || c[0] != '#' {
        return false;
    }
    let mut i: usize = 1;
    while i < 7
        invariant
            1 <= i <= 7,
            c@ == text@,
            c@.len() == 7,
            forall|j: int| 1 <= j < i ==> is_hex_digit(#[trigger] c@[j]),
        decreases 7 - i,
    {
        let d = c[i];
        if !(('0' <= d && d <= '9') || ('a' <= d && d <= 'f') || ('A' <= d && d <= 'F')) {
            assert(!is_hex_digit(c@[i as int]));
            return false;
        }
        i += 1;
    }
    true
}

/// A short text shown on a drawing: at most `max` characters, none of them a
/// control character.
pub open spec fn plain_short(s: Seq<char>, max: nat) -> bool {
    s.len() <= max && forall|i: int| 0 <= i < s.len() ==> !is_cc(#[trigger] s[i])
}

pub fn is_plain_short(text: &str, max: usize) -> (b: bool)
    ensures
        b == plain_short(text@, max as nat),
{
    let c = chars_of(text);
    if c.len() > max {
        return false;
    }
    let mut i: usize = 0;
    while i < c.len()
        invariant
            i <= c@.len(),
            c@ == text@,
            c@.len() <= max,
            forall|j: int| 0 <= j < i ==> !is_cc(#[trigger] c@[j]),
        decreases c@.len() - i,
    {
        if is_control(c[i]) {
            assert(is_cc(c@[i as int]));
            return false;
        }
        i += 1;
    }
    true
}

/// What the vertex names of a solid are: absent; present but not a list; or
/// a list whose entries are texts (`Some`) or anything else (`None`).
pub open spec fn vertex_names_error(path: Seq<char>, value: Option<Option<Seq<Option<Seq<char>>>>>) -> Option<Seq<char>> {
    match value {
        None => None,
        Some(None) => Some(path + " は配列で指定してください"@),
        Some(Some(names)) => if names.len() > MAX_VERTEX_NAMES || exists|i: int|
            0 <= i < names.len() && !(#[trigger] names[i] matches Some(t) && plain_short(t, MAX_VERTEX_NAME_CHARS as nat)) {
            Some(path + " が不正です"@)
        } else {
            None
        },
    }
}

pub open spec fn name_views(v: Seq<Option<String>>) -> Seq<Option<Seq<char>>> {
    v.map_values(|o: Option<String>| match o {
        Some(s) => Some(s@),
        None => None,
    })
}

/// Checks the vertex names of a solid: at most a hundred short plain texts.
pub fn check_vertex_names(path: &str, value: Option<Option<Vec<Option<String>>>>) -> (r: Result<(), String>)
    ensures
        match vertex_names_error(path@, match value {
            None => None,
            Some(None) => Some(None),
            Some(Some(v)) => Some(Some(name_views(v@))),
        }) {
            Some(m) => r matches Err(e) && e@ == m,
            None => r is Ok,
        },
{
    match value {
        None => Ok(()),
        Some(None) => {
            let mut m = chars_of(path);
            push_str(&mut m, " は配列で指定してください");
            Err(string_of(&m))
        },
        Some(Some(names)) => {
            let ghost nv = name_views(names@);
            let mut bad = names.len() > MAX_VERTEX_NAMES;
            let mut i: usize = 0;
            while i < names.len()
                invariant
                    i <= names@.len(),
                    nv == name_views(names@),
                    bad == (names@.len() > MAX_VERTEX_NAMES || exists|j: int|
                        0 <= j < i && !(#[trigger] nv[j] matches Some(t) && plain_short(t, MAX_VERTEX_NAME_CHARS as nat))),
                decreases names@.len() - i,
            {
                let ok = match &names[i] {
                    Some(t) => is_plain_short(t.as_str(), MAX_VERTEX_NAME_CHARS),
                    None => false,
                };
                assert(ok == (nv[i as int] matches Some(t) && plain_short(t, MAX_VERTEX_NAME_CHARS as nat)));
                if !ok {
                    bad = true;
                }
                i += 1;
            }
            if bad {
                let mut m = chars_of(path);
                push_str(&mut m, " が不正です");
                Err(string_of(&m))
            } else {
                Ok(())
            }
        },
    }
}

/// A plane graph's header: version 1, written by the graph application.
pub open spec fn graph_header_error(version: Option<i64>, app_name: Option<Seq<char>>) -> Option<Seq<char>> {
    if version != Some(1i64) {
        Some(GRAPH_VERSION_UNSUPPORTED@)
    } else if app_name != Some(GRAPH_APP_NAME@) {
        Some(GRAPH_APP_WRONG@)
    } else {
        None
    }
}

pub fn check_graph_header(version: Option<i64>, app_name: Option<&str>) -> (r: Result<(), String>)
    ensures
        match graph_header_error(version, match app_name {
            Some(a) => Some(a@),
            None => None,
        }) {
            Some(m) => r matches Err(e) && e@ == m,
            None => r is Ok,
        },
{
    if version != Some(1i64) {
        return Err(string_of(&chars_of(GRAPH_VERSION_UNSUPPORTED)));
    }
    let ok = match app_name {
        Some(a) => is_str(&chars_of(a), GRAPH_APP_NAME),
        None => false,
    };
    if !ok {
        return Err(string_of(&chars_of(GRAPH_APP_WRONG)));
    }
    Ok(())
}

} // verus!
