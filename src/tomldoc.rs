//! The TOML documents that hold metadata and the manifest, read and written
//! through the `toml` crate.
use vstd::prelude::*;
use toml::de::Error as DecodeError;
use toml::ser::Error as EncodeError;

verus! {

#[verifier::external_type_specification]
#[verifier::external_body]
pub struct ExDecodeError(DecodeError);

#[verifier::external_type_specification]
#[verifier::external_body]
pub struct ExEncodeError(EncodeError);

#[verifier::external_type_specification]
#[verifier::external_body]
pub struct ExTomlValue(toml::Value);

#[verifier::external_type_specification]
#[verifier::external_body]
#[verifier::reject_recursive_types(K)]
#[verifier::reject_recursive_types(V)]
pub struct ExTomlMap<K, V>(toml::map::Map<K, V>);

/// What a key of a TOML table holds, as far as the pipeline reads it.
#[derive(Debug)]
pub enum Field {
    Missing,
    Text(String),
    /// An array; each element that is a string is `Some` of it.
    List(Vec<Option<String>>),
    /// A value of another type.
    Other,
}

/// A value to write under a key of a TOML table.
pub enum TomlItem {
    Text(String),
    Texts(Vec<String>),
}

/// What a key of a TOML document holds, in plain values: `None` where the
/// key is absent, `Some(Ok(s))` for a string, `Some(Err(Some(items)))` for an
/// array (each string element as `Some`), `Some(Err(None))` for another value.
pub type FieldView = Option<Result<Seq<char>, Option<Seq<Option<Seq<char>>>>>>;

/// The views of the elements of an array field.
pub open spec fn opt_views(items: Seq<Option<String>>) -> Seq<Option<Seq<char>>> {
    items.map_values(
        |o: Option<String>|
            match o {
                Some(s) => Some(s@),
                None => None,
            },
    )
}

pub open spec fn field_view(f: Field) -> FieldView {
    match f {
        Field::Missing => None,
        Field::Text(s) => Some(Ok(s@)),
        Field::List(v) => Some(Err(Some(opt_views(v@)))),
        Field::Other => Some(Err(None)),
    }
}

/// A written item in plain values: its key, and its string or strings.
pub type ItemView = (Seq<char>, Result<Seq<char>, Seq<Seq<char>>>);

pub open spec fn item_view(i: (String, TomlItem)) -> ItemView {
    (
        i.0@,
        match i.1 {
            TomlItem::Text(s) => Ok(s@),
            TomlItem::Texts(v) => Err(v@.map_values(|s: String| s@)),
        },
    )
}

pub open spec fn items_view(items: Seq<(String, TomlItem)>) -> Seq<ItemView> {
    items.map_values(|i: (String, TomlItem)| item_view(i))
}

/// The text is a TOML document.
pub uninterp spec fn toml_accepts(text: Seq<char>) -> bool;

/// What the TOML document `text` holds under `key`.
pub uninterp spec fn toml_field_at(text: Seq<char>, key: Seq<char>) -> FieldView;

/// What `toml::to_string_pretty` writes for a table of these items; `None`
/// where it fails.
pub uninterp spec fn toml_pretty(items: Seq<ItemView>) -> Option<Seq<char>>;

/// Relies on `toml::from_str` into a `toml::Table` and on `toml::map::Map::get`:
/// whether the text parses, and what it holds under each key, depend on the
/// text and the key alone.
#[verifier::external_body]
pub(crate) fn read_fields(text: &str, keys: &Vec<String>) -> (r: Result<Vec<Field>, DecodeError>)
    ensures
        r is Ok <==> toml_accepts(text@),
        r matches Ok(v) ==> v@.len() == keys@.len() && forall|i: int|
            0 <= i < v@.len() ==> field_view(#[trigger] v@[i]) == toml_field_at(text@, keys@[i]@),
{
    let table = toml::from_str::<toml::Table>(text)?;
    Ok(keys.iter().map(|k| match table.get(k.as_str()) {
        None => Field::Missing,
        Some(toml::Value::String(s)) => Field::Text(s.clone()),
        Some(toml::Value::Array(a)) => Field::List(a.iter().map(|v| match v {
            toml::Value::String(s) => Some(s.clone()),
            _ => None,
        }).collect()),
        Some(_) => Field::Other,
    }).collect())
}

/// Relies on `toml::to_string_pretty` of a table holding the given keys, each
/// with a string or an array of strings: the text depends on the items alone.
#[verifier::external_body]
pub(crate) fn encode_table(items: &Vec<(String, TomlItem)>) -> (r: Result<String, EncodeError>)
    ensures
        r is Ok <==> toml_pretty(items_view(items@)) is Some,
        r matches Ok(t) ==> toml_pretty(items_view(items@)) == Some(t@),
{
    let mut table = toml::Table::new();
    for (key, item) in items.iter() {
        let value = match item {
            TomlItem::Text(s) => toml::Value::String(s.clone()),
            TomlItem::Texts(v) => toml::Value::Array(v.iter().map(|s| toml::Value::String(s.clone())).collect()),
        };
        table.insert(key.clone(), value);
    }
    toml::to_string_pretty(&table)
}

/// Every element of an array view is a string.
pub open spec fn all_text_v(items: Seq<Option<Seq<char>>>) -> bool {
    forall|i: int| 0 <= i < items.len() ==> items[i] is Some
}

/// The strings of an array view.
pub open spec fn texts_of_v(items: Seq<Option<Seq<char>>>) -> Set<Seq<char>> {
    Set::new(|s: Seq<char>| exists|i: int| 0 <= i < items.len() && items[i] == Some(s))
}

pub proof fn lemma_views_agree(items: Seq<Option<String>>)
    ensures
        all_text(items) <==> all_text_v(opt_views(items)),
        texts_of(items) == texts_of_v(opt_views(items)),
{
    let v = opt_views(items);
    assert forall|i: int| 0 <= i < items.len() implies (items[i] is Some <==> v[i] is Some) && (
    items[i] is Some ==> v[i] == Some(items[i]->Some_0@)) by {}
    if all_text_v(v) {
        assert forall|i: int| 0 <= i < items.len() implies items[i] is Some by {
            assert(v[i] is Some);
        }
    }
    assert forall|s: Seq<char>| texts_of(items).contains(s) <==> texts_of_v(v).contains(s) by {
        if texts_of_v(v).contains(s) {
            let i = choose|i: int| 0 <= i < v.len() && v[i] == Some(s);
            assert(items[i] is Some);
        }
        if texts_of(items).contains(s) {
            let i = choose|i: int| 0 <= i < items.len() && items[i] is Some && items[i]->Some_0@ == s;
            assert(v[i] == Some(s));
        }
    }
    assert(texts_of(items) =~= texts_of_v(v));
}

/// Every element of the array is a string.
pub open spec fn all_text(items: Seq<Option<String>>) -> bool {
    forall|i: int| 0 <= i < items.len() ==> items[i] is Some
}

/// The strings of an array whose elements are all strings.
pub open spec fn texts_of(items: Seq<Option<String>>) -> Set<Seq<char>> {
    Set::new(|s: Seq<char>| exists|i: int| 0 <= i < items.len() && items[i] is Some && items[i]->Some_0@ == s)
}

/// The strings of an array whose elements are all strings, in order.
pub fn texts_in_order(items: &Vec<Option<String>>) -> (r: Option<Vec<String>>)
    ensures
        r is Some <==> all_text(items@),
        r matches Some(v) ==> v@.len() == items@.len() && forall|i: int|
            0 <= i < v@.len() ==> items@[i] == Some(#[trigger] v@[i]),
{
    let mut out: Vec<String> = Vec::new();
    let mut i: usize = 0;
    while i < items.len()
        invariant
            i <= items@.len(),
            out@.len() == i,
            forall|j: int| 0 <= j < i ==> items@[j] == Some(#[trigger] out@[j]),
        decreases items@.len() - i,
    {
        match &items[i] {
            None => {
                assert(!(items@[i as int] is Some));
                return None;
            },
            Some(t) => {
                out.push(t.clone());
            },
        }
        i = i + 1;
    }
    assert(all_text(items@)) by {
        assert forall|j: int| 0 <= j < items@.len() implies items@[j] is Some by {
            assert(items@[j] == Some(out@[j]));
        }
    }
    Some(out)
}

/// The elements of `v`, each once, keeping the first of equal ones.
pub fn texts_dedup(items: &Vec<Option<String>>) -> (r: Option<Vec<String>>)
    ensures
        r is Some <==> all_text(items@),
        r matches Some(v) ==> {
            &&& v@.map_values(|s: String| s@).no_duplicates()
            &&& v@.map_values(|s: String| s@).to_set() == texts_of(items@)
        },
{
    let mut out: Vec<String> = Vec::new();
    let mut i: usize = 0;
    while i < items.len()
        invariant
            i <= items@.len(),
            all_text(items@.subrange(0, i as int)),
            out@.map_values(|s: String| s@).no_duplicates(),
            out@.map_values(|s: String| s@).to_set() == texts_of(items@.subrange(0, i as int)),
        decreases items@.len() - i,
    {
        let ghost before = out@.map_values(|s: String| s@);
        match &items[i] {
            None => {
                assert(!all_text(items@)) by {
                    assert(!(items@[i as int] is Some));
                }
                return None;
            },
            Some(t) => {
                let mut seen = false;
                let mut k: usize = 0;
                while k < out.len()
                    invariant
                        k <= out@.len(),
                        seen <==> exists|j: int| 0 <= j < k && out@[j]@ == t@,
                    decreases out@.len() - k,
                {
                    if out[k] == *t {
                        seen = true;
                    }
                    k = k + 1;
                }
                if !seen {
                    out.push(t.clone());
                    proof {
                        let after = out@.map_values(|s: String| s@);
                        assert(after =~= before.push(t@));
                        assert forall|a: int, b: int| 0 <= a < b < after.len() implies after[a]
                            != after[b] by {
                            if b == after.len() - 1 {
                                assert(out@[a]@ == before[a]);
                            }
                        }
                    }
                }
                proof {
                    let after = out@.map_values(|s: String| s@);
                    let pre = items@.subrange(0, i as int);
                    let cur = items@.subrange(0, i + 1);
                    assert(cur =~= pre.push(items@[i as int]));
                    assert(after.to_set() =~= texts_of(cur)) by {
                        assert forall|s: Seq<char>| after.to_set().contains(s) <==> texts_of(cur).contains(s) by {
                            if after.to_set().contains(s) {
                                let j = choose|j: int| 0 <= j < after.len() && after[j] == s;
                                if j < before.len() {
                                    assert(before.to_set().contains(s));
                                    let w = choose|w: int| 0 <= w < pre.len() && pre[w] is Some && pre[w]->Some_0@ == s;
                                    assert(cur[w] == pre[w]);
                                } else {
                                    assert(cur[i as int] == items@[i as int]);
                                }
                            }
                            if texts_of(cur).contains(s) {
                                let w = choose|w: int| 0 <= w < cur.len() && cur[w] is Some && cur[w]->Some_0@ == s;
                                if w < i {
                                    assert(pre[w] == cur[w]);
                                    assert(texts_of(pre).contains(s));
                                    assert(before.to_set().contains(s));
                                    let j = choose|j: int| 0 <= j < before.len() && before[j] == s;
                                    assert(after[j] == before[j]);
                                } else if seen {
                                    let j = choose|j: int| 0 <= j < out@.len() && out@[j]@ == t@;
                                    assert(after[j] == s);
                                } else {
                                    assert(after[after.len() - 1] == s);
                                }
                            }
                        }
                    }
                    assert forall|w: int| 0 <= w < cur.len() implies cur[w] is Some by {
                        if w < i {
                            assert(cur[w] == pre[w]);
                        }
                    }
                }
            },
        }
        i = i + 1;
    }
    assert(items@.subrange(0, i as int) =~= items@);
    Some(out)
}

} // verus!
