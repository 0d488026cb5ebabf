//! Emission of records as pretty-printed JSON objects.
//!
//! Each record becomes one JSON object holding its metadata entries in their
//! original order and the synthetic `file` entry last; the output stream is
//! the rendered objects, each followed by a newline.

use vstd::prelude::*;
use vstd::string::StringExecFns;
use crate::record::Record;
use crate::record::file_key;
use crate::text::joined;

verus! {

#[verifier::external_type_specification]
#[verifier::external_body]
pub struct ExJsonValue(serde_json::Value);

#[verifier::external_type_specification]
#[verifier::external_body]
#[verifier::reject_recursive_types(K)]
#[verifier::reject_recursive_types(V)]
pub struct ExJsonMap<K, V>(serde_json::Map<K, V>);

/// The keys of a JSON object, in insertion order.
pub uninterp spec fn object_keys(m: serde_json::Map<String, serde_json::Value>) -> Seq<Seq<char>>;

/// Relies on `serde_json::Map::new`: a new map is empty.
#[verifier::external_body]
fn json_object_new() -> (m: serde_json::Map<String, serde_json::Value>)
    ensures
        object_keys(m) == Seq::<Seq<char>>::empty(),
{
    serde_json::Map::new()
}

/// Relies on `serde_json::Map::insert`, with the map backed by an
/// insertion-ordered index map (the `preserve_order` build of `serde_json`):
/// a fresh key is appended at the end of the key order, while an existing key
/// keeps its position and only its value changes.
#[verifier::external_body]
fn json_object_insert(
    m: &mut serde_json::Map<String, serde_json::Value>,
    k: String,
    v: serde_json::Value,
)
    ensures
        !object_keys(*old(m)).contains(k@) ==> object_keys(*final(m)) == object_keys(
            *old(m),
        ).push(k@),
        object_keys(*old(m)).contains(k@) ==> object_keys(*final(m)) == object_keys(*old(m)),
{
    m.insert(k, v);
}

/// The JSON value that `serde_json::to_value` converts a YAML value into,
/// when the conversion succeeds.
pub uninterp spec fn json_of_yaml(v: serde_yaml::Value) -> Option<serde_json::Value>;

/// Whether a YAML value converts to JSON: the conversion fails only when the
/// value holds a mapping key that JSON cannot carry (integer and boolean
/// keys are written as strings; a null, sequence or mapping key fails).
pub open spec fn json_convertible(v: serde_yaml::Value) -> bool {
    json_of_yaml(v) is Some
}

/// Relies on `serde_json::to_value`: the conversion depends on the value
/// alone, fails only for a mapping key that JSON cannot carry, and never
/// panics.
#[verifier::external_body]
fn yaml_to_json(v: &serde_yaml::Value) -> (r: Option<serde_json::Value>)
    ensures
        r == json_of_yaml(*v),
{
    serde_json::to_value(v).ok()
}

/// The JSON string value holding a given text.
pub uninterp spec fn json_string_of(s: Seq<char>) -> serde_json::Value;

/// Relies on the `serde_json::Value::String` constructor: wraps a string as
/// a JSON string value, depending on the text alone.
#[verifier::external_body]
fn json_string(s: &str) -> (r: serde_json::Value)
    ensures
        r == json_string_of(s@),
{
    serde_json::Value::String(s.to_string())
}

/// The pretty-printed rendering of a JSON object.
pub uninterp spec fn pretty_of(m: serde_json::Map<String, serde_json::Value>) -> Seq<char>;

/// Relies on `serde_json::to_string_pretty`: the rendering depends on the
/// object alone, and on a string-keyed map of JSON values it cannot fail
/// (serialization fails only for a failing `Serialize` impl or a map with
/// non-string keys, and a JSON object has neither).
#[verifier::external_body]
fn pretty_json(m: &serde_json::Map<String, serde_json::Value>) -> (r: Option<String>)
    ensures
        r is Some,
        r is Some ==> r->Some_0@ == pretty_of(*m),
{
    serde_json::to_string_pretty(m).ok()
}

/// The keys of a record's entries, in order.
pub open spec fn entry_keys(es: Seq<(String, serde_yaml::Value)>) -> Seq<Seq<char>> {
    es.map_values(|e: (String, serde_yaml::Value)| e.0@)
}

/// Whether every metadata value of a record converts to JSON.
pub open spec fn record_convertible(rec: Record) -> bool {
    forall|i: int| 0 <= i < rec.entries@.len() ==> json_convertible(#[trigger] rec.entries@[i].1)
}

/// Whether `s` renders the record as its JSON object: an object whose keys
/// are the record's entry keys in order with `file` last, pretty-printed.
pub open spec fn is_rendering_of(s: Seq<char>, rec: Record) -> bool {
    exists|m: serde_json::Map<String, serde_json::Value>|
        #[trigger] object_keys(m) == entry_keys(rec.entries@).push(file_key()) && s == pretty_of(m)
}

/// The JSON object of a record: the metadata entries in their original
/// order, then the synthetic `file` entry last, holding the record's path.
///
/// `None` exactly when a metadata value cannot be converted to JSON (a value
/// holding a mapping with non-string keys).
pub fn record_object(rec: &Record) -> (r: Option<serde_json::Map<String, serde_json::Value>>)
    requires
        rec.wf(),
    ensures
        r is Some <==> record_convertible(*rec),
        r matches Some(m) ==> object_keys(m) == entry_keys(rec.entries@).push(file_key()),
{
    let mut m = json_object_new();
    let mut i: usize = 0;
    proof {
        assert(object_keys(m) =~= entry_keys(rec.entries@.take(0)));
    }
    while i < rec.entries.len()
        invariant
            rec.wf(),
            i <= rec.entries@.len(),
            object_keys(m) == entry_keys(rec.entries@.take(i as int)),
            forall|j: int| 0 <= j < i ==> json_convertible(#[trigger] rec.entries@[j].1),
        decreases rec.entries@.len() - i,
    {
        let p = &rec.entries[i];
        let jv = match yaml_to_json(&p.1) {
            Some(j) => j,
            None => {
                proof {
                    assert(!json_convertible(rec.entries@[i as int].1));
                }
                return None;
            },
        };
        proof {
            if object_keys(m).contains(p.0@) {
                let w = choose|w: int|
                    0 <= w < object_keys(m).len() && object_keys(m)[w] == p.0@;
                assert(rec.entries@[w].0@ == rec.entries@[i as int].0@);
                assert(false);
            }
        }
        json_object_insert(&mut m, p.0.clone(), jv);
        i = i + 1;
        proof {
            assert(object_keys(m) =~= entry_keys(rec.entries@.take(i as int)));
        }
    }
    proof {
        assert(rec.entries@.take(rec.entries@.len() as int) =~= rec.entries@);
        reveal_strlit("file");
        assert("file"@ =~= file_key());
        if object_keys(m).contains(file_key()) {
            let w = choose|w: int|
                0 <= w < object_keys(m).len() && object_keys(m)[w] == file_key();
            assert(rec.entries@[w].0@ == file_key());
            assert(false);
        }
    }
    let jf = json_string(rec.file.as_str());
    json_object_insert(&mut m, String::from_str("file"), jf);
    Some(m)
}

/// Renders one record as a pretty-printed JSON object, the metadata entries
/// in their original order and the `file` entry last. `None` exactly when a
/// metadata value cannot be converted to JSON.
pub fn render_record(rec: &Record) -> (r: Option<String>)
    requires
        rec.wf(),
    ensures
        r is Some <==> record_convertible(*rec),
        r matches Some(s) ==> is_rendering_of(s@, *rec),
{
    match record_object(rec) {
        Some(m) => {
            let out = pretty_json(&m);
            proof {
                assert(is_rendering_of(out->Some_0@, *rec)) by {
                    assert(object_keys(m) == entry_keys(rec.entries@).push(file_key()));
                    assert(out->Some_0@ == pretty_of(m));
                }
            }
            out
        },
        None => None,
    }
}

/// Renders every record, in order; `None` exactly when some record's
/// metadata cannot be converted to JSON.
pub fn render_all(records: &Vec<Record>) -> (r: Option<Vec<String>>)
    requires
        forall|i: int| 0 <= i < records@.len() ==> (#[trigger] records@[i]).wf(),
    ensures
        r is Some <==> (forall|i: int|
            0 <= i < records@.len() ==> record_convertible(#[trigger] records@[i])),
        r matches Some(v) ==> v@.len() == records@.len() && (forall|i: int|
            0 <= i < records@.len() ==> is_rendering_of((#[trigger] v@[i])@, records@[i])),
{
    let mut out: Vec<String> = Vec::new();
    let mut i: usize = 0;
    while i < records.len()
        invariant
            forall|j: int| 0 <= j < records@.len() ==> (#[trigger] records@[j]).wf(),
            i <= records@.len(),
            out@.len() == i,
            forall|j: int| 0 <= j < i ==> record_convertible(#[trigger] records@[j]),
            forall|j: int| 0 <= j < i ==> is_rendering_of((#[trigger] out@[j])@, records@[j]),
        decreases records@.len() - i,
    {
        let rendered = match render_record(&records[i]) {
            Some(s) => s,
            None => {
                proof {
                    assert(!record_convertible(records@[i as int]));
                }
                return None;
            },
        };
        out.push(rendered);
        i = i + 1;
    }
    Some(out)
}

/// The views of a sequence of strings.
pub open spec fn string_views(parts: Seq<String>) -> Seq<Seq<char>> {
    parts.map_values(|p: String| p@)
}

/// Concatenates rendered records into the output stream, a newline after
/// each, so that the emitted objects remain separable.
pub fn frame_records(parts: &Vec<String>) -> (out: String)
    ensures
        out@ == joined(string_views(parts@)),
{
    let mut out = String::new();
    let mut i: usize = 0;
    proof {
        assert(string_views(parts@.take(0)) =~= Seq::<Seq<char>>::empty());
    }
    while i < parts.len()
        invariant
            i <= parts@.len(),
            out@ == joined(string_views(parts@.take(i as int))),
        decreases parts@.len() - i,
    {
        out.append(parts[i].as_str());
        out.append("\n");
        i = i + 1;
        proof {
            reveal_strlit("\n");
            assert(string_views(parts@.take(i as int)).drop_last() =~= string_views(
                parts@.take(i - 1),
            ));
            assert(string_views(parts@.take(i as int)).last() == parts@[i - 1]@);
            assert("\n"@ =~= seq!['\n']);
        }
    }
    proof {
        assert(parts@.take(parts@.len() as int) =~= parts@);
    }
    out
}

} // verus!
