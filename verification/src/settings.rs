//! Application settings that a browser client may read and change.
use vstd::prelude::*;
use crate::text::{chars_of, is_str, push_all, push_str, string_of};

verus! {

/// The only setting that browser clients may see or change.
pub open spec fn is_web_key(key: Seq<char>) -> bool {
    key == "preview_template_id"@
}

pub open spec fn is_ascii_digit(c: char) -> bool {
    '0' <= c && c <= '9'
}

/// A template id as a browser may set it: empty, or up to 20 ASCII digits.
pub open spec fn valid_template_id(value: Seq<char>) -> bool {
    value.len() == 0 || (value.len() <= 20 && forall|k: int| 0 <= k < value.len() ==> is_ascii_digit(#[trigger] value[k]))
}

/// Why a browser may not store `value` under `key`, if it may not.
pub open spec fn web_setting_refusal(key: Seq<char>, value: Seq<char>) -> Option<Seq<char>> {
    if !is_web_key(key) {
        Some("設定 "@ + key + " はブラウザから変更できません"@)
    } else if valid_template_id(value) {
        None
    } else {
        Some("プレビューテンプレートIDが不正です"@)
    }
}

fn all_ascii_digits(v: &Vec<char>) -> (b: bool)
    ensures
        b == forall|k: int| 0 <= k < v@.len() ==> is_ascii_digit(#[trigger] v@[k]),
{
    let mut k: usize = 0;
    while k < v.len()
        invariant
            k <= v.len(),
            forall|j: int| 0 <= j < k ==> is_ascii_digit(#[trigger] v@[j]),
        decreases v.len() - k,
    {
        if !('0' <= v[k] && v[k] <= '9') {
            assert(!is_ascii_digit(v@[k as int]));
            return false;
        }
        k += 1;
    }
    true
}

/// Checks one setting sent from a browser.
pub fn validate_web_setting(key: &str, value: &str) -> (r: Result<(), String>)
    ensures
        match web_setting_refusal(key@, value@) {
            Some(msg) => r matches Err(e) && e@ == msg,
            None => r is Ok,
        },
{
    let k = chars_of(key);
    if !is_str(&k, "preview_template_id") {
        let mut m = chars_of("設定 ");
        push_all(&mut m, &k);
        push_str(&mut m, " はブラウザから変更できません");
        return Err(string_of(&m));
    }
    let v = chars_of(value);
    if v.len() == 0 || (v.len() <= 20 && all_ascii_digits(&v)) {
        Ok(())
    } else {
        Err(string_of(&chars_of("プレビューテンプレートIDが不正です")))
    }
}

/// The settings of `all` that a browser may see, in their order.
pub open spec fn web_visible(all: Seq<(String, String)>) -> Seq<(String, String)>
    decreases all.len(),
{
    if all.len() == 0 {
        seq![]
    } else {
        web_visible(all.drop_last()) + (if is_web_key(all.last().0@) { seq![all.last()] } else { seq![] })
    }
}

/// The settings that may be shown to a browser: host paths and the like are held back.
pub fn get_web_settings(all: &Vec<(String, String)>) -> (r: Vec<(String, String)>)
    ensures
        r@ == web_visible(all@),
{
    let mut out: Vec<(String, String)> = Vec::new();
    let mut i: usize = 0;
    while i < all.len()
        invariant
            i <= all.len(),
            out@ == web_visible(all@.take(i as int)),
        decreases all.len() - i,
    {
        proof {
            assert(all@.take(i + 1).drop_last() =~= all@.take(i as int));
        }
        let k = chars_of(all[i].0.as_str());
        if is_str(&k, "preview_template_id") {
            let entry = (all[i].0.clone(), all[i].1.clone());
            out.push(entry);
            assert(out@ =~= web_visible(all@.take(i as int)) + seq![all@[i as int]]);
        } else {
            assert(out@ =~= web_visible(all@.take(i as int)) + seq![]);
        }
        i += 1;
    }
    assert(all@.take(all@.len() as int) =~= all@);
    out
}

/// The first refusal among settings sent from a browser, in their order.
pub open spec fn first_refusal(entries: Seq<(String, String)>) -> Option<Seq<char>>
    decreases entries.len(),
{
    if entries.len() == 0 {
        None
    } else {
        match web_setting_refusal(entries[0].0@, entries[0].1@) {
            Some(m) => Some(m),
            None => first_refusal(entries.drop_first()),
        }
    }
}

/// Checks settings sent from a browser before they are stored: the entries to
/// store, or the first refusal.
pub fn set_web_settings(settings: Vec<(String, String)>) -> (r: Result<Vec<(String, String)>, String>)
    ensures
        match first_refusal(settings@) {
            Some(msg) => r matches Err(e) && e@ == msg,
            None => r matches Ok(v) && v@ == settings@,
        },
{
    let mut i: usize = 0;
    assert(settings@.skip(0) =~= settings@);
    while i < settings.len()
        invariant
            i <= settings.len(),
            first_refusal(settings@) == first_refusal(settings@.skip(i as int)),
        decreases settings.len() - i,
    {
        proof {
            assert(settings@.skip(i as int).drop_first() =~= settings@.skip(i + 1));
        }
        match validate_web_setting(settings[i].0.as_str(), settings[i].1.as_str()) {
            Err(e) => {
                return Err(e);
            },
            Ok(()) => {},
        }
        i += 1;
    }
    Ok(settings)
}

/// Law: a browser is shown no setting but the ones it may see.
pub proof fn lemma_web_visible_only_web(all: Seq<(String, String)>)
    ensures
        forall|i: int| 0 <= i < web_visible(all).len() ==> is_web_key((#[trigger] web_visible(all)[i]).0@),
    decreases all.len(),
{
    if all.len() > 0 {
        lemma_web_visible_only_web(all.drop_last());
        let prev = web_visible(all.drop_last());
        assert forall|i: int| 0 <= i < web_visible(all).len() implies is_web_key((#[trigger] web_visible(all)[i]).0@) by {
            if i < prev.len() {
                assert(web_visible(all)[i] == prev[i]);
            }
        }
    }
}

/// Law: browser settings are stored only when every one of them is allowed.
pub proof fn lemma_no_refusal_means_all_allowed(entries: Seq<(String, String)>)
    ensures
        first_refusal(entries) is None <==> forall|i: int|
            0 <= i < entries.len() ==> web_setting_refusal((#[trigger] entries[i]).0@, entries[i].1@) is None,
    decreases entries.len(),
{
    if entries.len() > 0 {
        lemma_no_refusal_means_all_allowed(entries.drop_first());
        assert forall|i: int| 0 < i < entries.len() implies #[trigger] entries[i] == entries.drop_first()[i - 1] by {}
        if first_refusal(entries) is None {
            assert forall|i: int| 0 <= i < entries.len() implies web_setting_refusal((#[trigger] entries[i]).0@, entries[i].1@) is None by {
                if i > 0 {
                    assert(entries[i] == entries.drop_first()[i - 1]);
                }
            }
        }
        if forall|i: int| 0 <= i < entries.len() ==> web_setting_refusal((#[trigger] entries[i]).0@, entries[i].1@) is None {
            assert forall|i: int| 0 <= i < entries.drop_first().len() implies web_setting_refusal(
                (#[trigger] entries.drop_first()[i]).0@,
                entries.drop_first()[i].1@,
            ) is None by {
                assert(entries.drop_first()[i] == entries[i + 1]);
            }
        }
    }
}

/// The setting that names where the data lives; it is shown, never stored.
pub const DATA_DIR_KEY: &'static str = "data_dir";

/// The settings as a map: a later entry for a key replaces an earlier one.
pub open spec fn settings_map(entries: Seq<(String, String)>) -> Map<Seq<char>, Seq<char>>
    decreases entries.len(),
{
    if entries.len() == 0 {
        Map::empty()
    } else {
        settings_map(entries.drop_last()).insert(entries.last().0@, entries.last().1@)
    }
}

pub open spec fn keys_distinct(entries: Seq<(String, String)>) -> bool {
    forall|i: int, j: int| 0 <= i < j < entries.len() ==> (#[trigger] entries[i]).0@ != (#[trigger] entries[j]).0@
}

proof fn lemma_absent_key(entries: Seq<(String, String)>, k: Seq<char>)
    requires
        forall|i: int| 0 <= i < entries.len() ==> (#[trigger] entries[i]).0@ != k,
    ensures
        !settings_map(entries).dom().contains(k),
    decreases entries.len(),
{
    if entries.len() > 0 {
        lemma_absent_key(entries.drop_last(), k);
    }
}

proof fn lemma_replace_entry(entries: Seq<(String, String)>, j: int, e: (String, String))
    requires
        keys_distinct(entries),
        0 <= j < entries.len(),
        entries[j].0@ == e.0@,
    ensures
        settings_map(entries.update(j, e)) == settings_map(entries).insert(e.0@, e.1@),
    decreases entries.len(),
{
    let n = entries.len() - 1;
    if j == n {
        assert(entries.update(j, e).drop_last() =~= entries.drop_last());
        assert(settings_map(entries.update(j, e)) =~= settings_map(entries).insert(e.0@, e.1@));
    } else {
        let front = entries.drop_last();
        assert(keys_distinct(front));
        assert(entries.update(j, e).drop_last() =~= front.update(j, e));
        lemma_replace_entry(front, j, e);
        assert(entries[j].0@ != entries[n].0@);
        assert(settings_map(entries.update(j, e)) =~= settings_map(entries).insert(e.0@, e.1@));
    }
}

/// All settings as shown to the application: the stored ones, and where the data lives.
pub fn get_settings(stored: Vec<(String, String)>, data_dir: String) -> (r: Vec<(String, String)>)
    ensures
        keys_distinct(r@),
        settings_map(r@) == settings_map(stored@).insert(DATA_DIR_KEY@, data_dir@),
{
    let mut out: Vec<(String, String)> = Vec::new();
    let mut i: usize = 0;
    while i < stored.len()
        invariant
            i <= stored.len(),
            keys_distinct(out@),
            forall|j: int| 0 <= j < out@.len() ==> (#[trigger] out@[j]).0@ != DATA_DIR_KEY@,
            settings_map(out@) == settings_map(stored@.take(i as int)).remove(DATA_DIR_KEY@),
        decreases stored.len() - i,
    {
        proof {
            assert(stored@.take(i + 1).drop_last() =~= stored@.take(i as int));
        }
        let ghost prev = settings_map(stored@.take(i as int));
        let k = chars_of(stored[i].0.as_str());
        let entry = (stored[i].0.clone(), stored[i].1.clone());
        if is_str(&k, DATA_DIR_KEY) {
            assert(settings_map(stored@.take(i + 1)).remove(DATA_DIR_KEY@) =~= prev.remove(DATA_DIR_KEY@));
        } else {
            let mut found: Option<usize> = None;
            let mut j: usize = 0;
            while j < out.len()
                invariant
                    j <= out.len(),
                    found is None ==> forall|m: int| 0 <= m < j ==> (#[trigger] out@[m]).0@ != k@,
                    found matches Some(f) ==> f < out.len() && out@[f as int].0@ == k@,
                decreases out.len() - j,
            {
                if found.is_none() && crate::text::eq_chars(&chars_of(out[j].0.as_str()), &k) {
                    found = Some(j);
                }
                j += 1;
            }
            match found {
                Some(f) => {
                    let ghost before = out@;
                    proof {
                        lemma_replace_entry(before, f as int, entry);
                    }
                    out.set(f, entry);
                    assert(out@ == before.update(f as int, entry));
                    assert(keys_distinct(out@)) by {
                        assert forall|a: int, b: int| 0 <= a < b < out@.len() implies (#[trigger] out@[a]).0@ != (#[trigger] out@[b]).0@ by {
                            assert(before[a].0@ != before[b].0@);
                        }
                    }
                    assert(settings_map(out@) =~= settings_map(stored@.take(i + 1)).remove(DATA_DIR_KEY@));
                },
                None => {
                    let ghost before = out@;
                    out.push(entry);
                    assert(out@.drop_last() =~= before);
                    assert(settings_map(out@) =~= settings_map(stored@.take(i + 1)).remove(DATA_DIR_KEY@));
                },
            }
        }
        i += 1;
    }
    assert(stored@.take(stored.len() as int) =~= stored@);
    let ghost before = out@;
    proof {
        lemma_absent_key(before, DATA_DIR_KEY@);
    }
    out.push((string_of(&chars_of(DATA_DIR_KEY)), data_dir));
    assert(out@.drop_last() =~= before);
    assert(settings_map(out@) =~= settings_map(stored@).insert(DATA_DIR_KEY@, data_dir@));
    out
}

/// The settings to store of `entries`, in their order: where the data lives is
/// never stored.
pub open spec fn to_store(entries: Seq<(String, String)>) -> Seq<(String, String)>
    decreases entries.len(),
{
    if entries.len() == 0 {
        seq![]
    } else {
        to_store(entries.drop_last()) + (if entries.last().0@ != DATA_DIR_KEY@ { seq![entries.last()] } else { seq![] })
    }
}

/// The settings to store of those the application sends.
pub fn set_settings(settings: Vec<(String, String)>) -> (r: Vec<(String, String)>)
    ensures
        r@ == to_store(settings@),
{
    let mut out: Vec<(String, String)> = Vec::new();
    let mut i: usize = 0;
    while i < settings.len()
        invariant
            i <= settings.len(),
            out@ == to_store(settings@.take(i as int)),
        decreases settings.len() - i,
    {
        proof {
            assert(settings@.take(i + 1).drop_last() =~= settings@.take(i as int));
        }
        if !is_str(&chars_of(settings[i].0.as_str()), DATA_DIR_KEY) {
            out.push((settings[i].0.clone(), settings[i].1.clone()));
            assert(out@ =~= to_store(settings@.take(i as int)) + seq![settings@[i as int]]);
        } else {
            assert(out@ =~= to_store(settings@.take(i as int)) + seq![]);
        }
        i += 1;
    }
    assert(settings@.take(settings.len() as int) =~= settings@);
    out
}

} // verus!
