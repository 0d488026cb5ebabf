//! The YAML side of extraction: parsing a block body with `serde_yaml` and
//! reading the top-level entries of the parsed document.
//!
//! YAML values are opaque to the library; they are carried through to the
//! emitter unread. Only their top-level keys are inspected, through a trusted
//! coercion to `String`. Each trusted result is named, so the contracts pin
//! the extracted entries as a function of the block body.

use vstd::prelude::*;

verus! {

#[verifier::external_type_specification]
#[verifier::external_body]
pub struct ExYamlValue(serde_yaml::Value);

/// Relies on `serde_yaml::Value`'s `Clone`: the clone equals the original.
pub assume_specification[ <serde_yaml::Value as Clone>::clone ](
    v: &serde_yaml::Value,
) -> (r: serde_yaml::Value)
    ensures
        r == *v,
;

/// The document that `serde_yaml::from_str` parses a text into, when the text
/// is well-formed YAML.
pub uninterp spec fn yaml_doc_of(s: Seq<char>) -> Option<serde_yaml::Value>;

/// Whether `serde_yaml::from_str` accepts the text as a YAML document.
pub open spec fn yaml_parses(s: Seq<char>) -> bool {
    yaml_doc_of(s) is Some
}

/// The top-level entries of a YAML value, when the value is a mapping
/// (untagged first, so a tagged mapping also has entries), in the order the
/// mapping keeps them.
pub uninterp spec fn mapping_entries_of(v: serde_yaml::Value) -> Option<
    Seq<(serde_yaml::Value, serde_yaml::Value)>,
>;

/// The text of a YAML value, when the value is a string (untagged first).
pub uninterp spec fn as_text(v: serde_yaml::Value) -> Option<Seq<char>>;

/// Relies on `serde_yaml::from_str`: the parse depends on the characters
/// alone, and a value comes back exactly when the text is well-formed YAML.
/// An empty document parses as a null value, which is not a mapping.
#[verifier::external_body]
pub(crate) fn parse_yaml(s: &str) -> (r: Option<serde_yaml::Value>)
    ensures
        r == yaml_doc_of(s@),
        s@.len() == 0 ==> (r is Some && mapping_entries_of(r->Some_0) is None),
{
    serde_yaml::from_str(s).ok()
}

/// Relies on `serde_yaml::Value::as_mapping`, which untags a tagged value
/// first, and on `serde_yaml::Mapping::iter`: a mapping hands out its entries
/// in insertion order, and they depend on the value alone; any other value,
/// including a scalar or sequence at top level, yields `None`.
#[verifier::external_body]
pub(crate) fn mapping_pairs(v: &serde_yaml::Value) -> (r: Option<
    Vec<(serde_yaml::Value, serde_yaml::Value)>,
>)
    ensures
        r is Some <==> mapping_entries_of(*v) is Some,
        r is Some ==> mapping_entries_of(*v) == Some(r->Some_0@),
{
    v.as_mapping().map(|m| m.iter().map(|(k, val)| (k.clone(), val.clone())).collect())
}

/// Relies on `serde_yaml::Value::as_str`, which untags a tagged value first:
/// a string value yields its text, any other kind of value yields `None`.
#[verifier::external_body]
pub(crate) fn string_key_of(v: &serde_yaml::Value) -> (r: Option<String>)
    ensures
        r is Some <==> as_text(*v) is Some,
        r is Some ==> as_text(*v) == Some(r->Some_0@),
{
    v.as_str().map(|s| s.to_string())
}

/// The view of each entry: the key's characters beside the untouched value.
pub open spec fn entry_views(es: Seq<(String, serde_yaml::Value)>) -> Seq<
    (Seq<char>, serde_yaml::Value),
> {
    es.map_values(|e: (String, serde_yaml::Value)| (e.0@, e.1))
}

/// Entries with their keys coerced to strings: an entry whose key is a YAML
/// string keeps it, with its text as the key; an entry with any other kind of
/// key is dropped. Order and values of the kept entries are unchanged.
pub open spec fn coerced(ps: Seq<(serde_yaml::Value, serde_yaml::Value)>) -> Seq<
    (Seq<char>, serde_yaml::Value),
>
    decreases ps.len(),
{
    if ps.len() == 0 {
        Seq::empty()
    } else {
        let prev = coerced(ps.drop_last());
        match as_text(ps.last().0) {
            Some(k) => prev.push((k, ps.last().1)),
            None => prev,
        }
    }
}

/// The top-level metadata of a block body: the coerced entries of the parsed
/// document when it is a mapping, and no entries otherwise.
pub open spec fn metadata_of(s: Seq<char>) -> Seq<(Seq<char>, serde_yaml::Value)> {
    match yaml_doc_of(s) {
        Some(v) => match mapping_entries_of(v) {
            Some(ps) => coerced(ps),
            None => Seq::empty(),
        },
        None => Seq::empty(),
    }
}

/// Coerces the entries' keys to strings, exactly as `coerced` describes.
pub(crate) fn coerce_entries(pairs: &Vec<(serde_yaml::Value, serde_yaml::Value)>) -> (r: Vec<
    (String, serde_yaml::Value),
>)
    ensures
        entry_views(r@) == coerced(pairs@),
{
    let mut out: Vec<(String, serde_yaml::Value)> = Vec::new();
    let mut i: usize = 0;
    proof {
        assert(entry_views(out@) =~= coerced(pairs@.take(0)));
    }
    while i < pairs.len()
        invariant
            i <= pairs@.len(),
            entry_views(out@) == coerced(pairs@.take(i as int)),
        decreases pairs@.len() - i,
    {
        let ghost prev = out@;
        let p = &pairs[i];
        if let Some(key) = string_key_of(&p.0) {
            out.push((key, p.1.clone()));
            proof {
                assert(entry_views(out@) =~= entry_views(prev).push((key@, pairs@[i as int].1)));
            }
        }
        i = i + 1;
        proof {
            assert(pairs@.take(i as int).drop_last() =~= pairs@.take(i - 1));
            assert(pairs@.take(i as int).last() == pairs@[i - 1]);
        }
    }
    proof {
        assert(pairs@.take(pairs@.len() as int) =~= pairs@);
    }
    out
}

/// Parses a block body and extracts its top-level metadata entries.
///
/// A body that is not well-formed YAML yields `None`. A well-formed body
/// yields exactly the metadata that `metadata_of` describes: no entries when
/// the top-level value is not a mapping (an empty body parses as null, so it
/// yields none), and otherwise the mapping's entries in order, those with
/// non-string keys dropped.
pub fn parse_metadata(block: &str) -> (r: Option<Vec<(String, serde_yaml::Value)>>)
    ensures
        r is Some <==> yaml_parses(block@),
        r matches Some(es) ==> entry_views(es@) == metadata_of(block@),
        block@.len() == 0 ==> (r matches Some(es) && es@.len() == 0),
{
    let v = match parse_yaml(block) {
        Some(v) => v,
        None => {
            return None;
        },
    };
    match mapping_pairs(&v) {
        Some(pairs) => Some(coerce_entries(&pairs)),
        None => {
            proof {
                assert(entry_views(Seq::<(String, serde_yaml::Value)>::empty()) =~= Seq::<
                    (Seq<char>, serde_yaml::Value),
                >::empty());
            }
            Some(Vec::new())
        },
    }
}

} // verus!
