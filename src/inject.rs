use vstd::prelude::*;

use crate::release::Context;
use crate::text::text_equal;
use crate::value::{group_value_models, json_entries_model, json_items_model, JsonModel, JsonValue};

verus! {

broadcast use vstd::std_specs::vec::group_vec_axioms, vstd::seq::group_seq_axioms, group_value_models;

/// Whether `i` is the first position of `key` among the entries' keys.
pub open spec fn first_key_at(entries: Seq<(Seq<char>, JsonModel)>, key: Seq<char>, i: int) -> bool {
    0 <= i < entries.len() && entries[i].0 == key && forall|j: int|
        0 <= j < i ==> #[trigger] entries[j].0 != key
}

/// The first position of `key` among the entries' keys, or -1 where it is absent.
pub open spec fn key_index(entries: Seq<(Seq<char>, JsonModel)>, key: Seq<char>) -> int {
    if exists|i: int| first_key_at(entries, key, i) {
        choose|i: int| first_key_at(entries, key, i)
    } else {
        -1
    }
}

/// The texts as JSON strings.
pub open spec fn string_models(texts: Seq<String>) -> Seq<JsonModel> {
    Seq::new(texts.len(), |i: int| JsonModel::String(texts[i]@))
}

/// The entries with `extra` appended to the array under `key`: the array is
/// created at the end where the key is absent, and a value that is not an
/// array is left as it is.
pub open spec fn with_appended(
    entries: Seq<(Seq<char>, JsonModel)>,
    key: Seq<char>,
    extra: Seq<JsonModel>,
) -> Seq<(Seq<char>, JsonModel)> {
    let p = key_index(entries, key);
    if p < 0 {
        entries.push((key, JsonModel::Array(extra)))
    } else if entries[p].1 is Array {
        entries.update(p, (key, JsonModel::Array(entries[p].1->Array_0 + extra)))
    } else {
        entries
    }
}

pub open spec fn release_date_key() -> Seq<char> {
    "release-date"@
}

/// The entries with `today` as the release date where it is absent or empty.
pub open spec fn with_release_date(entries: Seq<(Seq<char>, JsonModel)>, today: Seq<char>) -> Seq<
    (Seq<char>, JsonModel),
> {
    let p = key_index(entries, release_date_key());
    if p < 0 {
        entries.push((release_date_key(), JsonModel::String(today)))
    } else if entries[p].1 == JsonModel::String(Seq::empty()) {
        entries.update(p, (release_date_key(), JsonModel::String(today)))
    } else {
        entries
    }
}

/// The root of a rendered template after injection: the context's jiras and
/// work-in-progress jiras appended, and the release date filled in. A root
/// that is not an object is left as it is.
pub open spec fn injected(root: JsonModel, ctx: Context, today: Seq<char>) -> JsonModel {
    match root {
        JsonModel::Object(entries) => {
            let a = with_appended(entries, "jiras"@, string_models(ctx.jiras@));
            let b = with_appended(a, "wip-jiras"@, string_models(ctx.wip_jiras@));
            JsonModel::Object(with_release_date(b, today))
        },
        _ => root,
    }
}

/// The position of the first entry under `key`.
fn find_key(entries: &Vec<(String, JsonValue)>, key: &str) -> (r: Option<usize>)
    ensures
        match r {
            Some(i) => key_index(json_entries_model(entries), key@) == i as int,
            None => key_index(json_entries_model(entries), key@) == -1,
        },
{
    let model = Ghost(json_entries_model(entries));
    let mut i: usize = 0;
    while i < entries.len()
        invariant
            model@ == json_entries_model(entries),
            i <= entries.len(),
            forall|j: int| 0 <= j < i ==> #[trigger] model@[j].0 != key@,
        decreases entries.len() - i,
    {
        if text_equal(entries[i].0.as_str(), key) {
            assert(first_key_at(model@, key@, i as int));
            assert forall|k: int| first_key_at(model@, key@, k) implies k == i by {
                if k < i {
                    assert(model@[k].0 != key@);
                }
                if k > i {
                    assert(model@[i as int].0 != key@);
                }
            }
            return Some(i);
        }
        i = i + 1;
    }
    assert forall|k: int| !first_key_at(model@, key@, k) by {
        if 0 <= k < model@.len() {
            assert(model@[k].0 != key@);
        }
    }
    None
}

/// Appends the texts, as JSON strings, to the array under `key`.
fn append_strings(entries: &mut Vec<(String, JsonValue)>, key: &str, texts: &Vec<String>)
    ensures
        json_entries_model(final(entries)) == with_appended(
            json_entries_model(old(entries)),
            key@,
            string_models(texts@),
        ),
{
    let ghost before = json_entries_model(entries);
    match find_key(entries, key) {
        None => {
            let mut items: Vec<JsonValue> = Vec::new();
            let mut j: usize = 0;
            while j < texts.len()
                invariant
                    j <= texts.len(),
                    json_items_model(&items) =~= string_models(texts@).subrange(0, j as int),
                decreases texts.len() - j,
            {
                let t = texts[j].clone();
                let ghost prev = json_items_model(&items);
                items.push(JsonValue::String(t));
                assert(items[items.len() - 1]@ == JsonModel::String(texts[j as int]@));
                assert(json_items_model(&items) =~= prev.push(JsonModel::String(texts[j as int]@)));
                j = j + 1;
            }
            assert(string_models(texts@).subrange(0, j as int) =~= string_models(texts@));
            let ghost arr = json_items_model(&items);
            entries.push((key.to_owned(), JsonValue::Array(items)));
            assert(json_entries_model(entries) =~= before.push((key@, JsonModel::Array(arr))));
        },
        Some(p) => {
            let (k, v) = entries.remove(p);
            assert(k@ == key@);
            match v {
                JsonValue::Array(mut items) => {
                    let ghost start = json_items_model(&items);
                    let mut j: usize = 0;
                    while j < texts.len()
                        invariant
                            j <= texts.len(),
                            json_items_model(&items) =~= start + string_models(texts@).subrange(
                                0,
                                j as int,
                            ),
                        decreases texts.len() - j,
                    {
                        let t = texts[j].clone();
                        let ghost prev = json_items_model(&items);
                        items.push(JsonValue::String(t));
                        assert(items[items.len() - 1]@ == JsonModel::String(texts[j as int]@));
                        assert(json_items_model(&items) =~= prev.push(
                            JsonModel::String(texts[j as int]@),
                        ));
                        j = j + 1;
                    }
                    assert(string_models(texts@).subrange(0, j as int) =~= string_models(texts@));
                    let ghost arr = json_items_model(&items);
                    entries.insert(p, (k, JsonValue::Array(items)));
                    assert(json_entries_model(entries) =~= before.update(
                        p as int,
                        (key@, JsonModel::Array(arr)),
                    ));
                },
                other => {
                    entries.insert(p, (k, other));
                    assert(json_entries_model(entries) =~= before);
                },
            }
        },
    }
}

/// Sets the release date to `today` where it is absent or empty.
fn fill_release_date(entries: &mut Vec<(String, JsonValue)>, today: &str)
    ensures
        json_entries_model(final(entries)) == with_release_date(
            json_entries_model(old(entries)),
            today@,
        ),
{
    let ghost before = json_entries_model(entries);
    proof {
        reveal_strlit("release-date");
    }
    match find_key(entries, "release-date") {
        None => {
            entries.push(("release-date".to_owned(), JsonValue::String(today.to_owned())));
            assert(json_entries_model(entries) =~= before.push(
                (release_date_key(), JsonModel::String(today@)),
            ));
        },
        Some(p) => {
            let empty = match &entries[p].1 {
                JsonValue::String(s) => s.as_str().unicode_len() == 0,
                _ => false,
            };
            assert(empty == (before[p as int].1 == JsonModel::String(Seq::empty()))) by {
                if before[p as int].1 == JsonModel::String(Seq::empty()) {
                    assert(entries[p as int].1 is String);
                }
                if entries[p as int].1 is String && empty {
                    assert(entries[p as int].1@->String_0 =~= Seq::<char>::empty());
                }
            }
            if empty {
                entries.set(p, ("release-date".to_owned(), JsonValue::String(today.to_owned())));
                assert(json_entries_model(entries) =~= before.update(
                    p as int,
                    (release_date_key(), JsonModel::String(today@)),
                ));
            }
        },
    }
}

/// Injects the context's jiras and today's date into the root of a rendered template.
pub fn inject(root: JsonValue, ctx: &Context, today: &str) -> (r: JsonValue)
    ensures
        r@ == injected(root@, *ctx, today@),
{
    proof {
        reveal_strlit("jiras");
        reveal_strlit("wip-jiras");
    }
    match root {
        JsonValue::Object(mut entries) => {
            append_strings(&mut entries, "jiras", &ctx.jiras);
            append_strings(&mut entries, "wip-jiras", &ctx.wip_jiras);
            fill_release_date(&mut entries, today);
            JsonValue::Object(entries)
        },
        other => other,
    }
}

} // verus!
