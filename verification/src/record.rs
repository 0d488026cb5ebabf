//! The extraction result: a document's top-level metadata entries paired with
//! the document's path.

use vstd::prelude::*;
use vstd::string::StringExecFns;
use crate::block::block_text_of;
use crate::block::frontmatter_block;
use crate::yaml::entry_views;
use crate::yaml::metadata_of;
use crate::yaml::parse_metadata;
use crate::yaml::yaml_parses;

verus! {

/// One extraction result: the metadata entries of a document's frontmatter
/// block, in their original order, and the path of the document.
pub struct Record {
    /// Top-level metadata entries, in the order they appear in the block.
    pub entries: Vec<(String, serde_yaml::Value)>,
    /// The path of the document the block was extracted from, as given.
    pub file: String,
}

/// The key of the synthetic path entry that every emitted record carries.
pub open spec fn file_key() -> Seq<char> {
    seq!['f', 'i', 'l', 'e']
}

/// Whether some entry carries the key `k`.
pub open spec fn has_key(es: Seq<(String, serde_yaml::Value)>, k: Seq<char>) -> bool {
    exists|i: int| 0 <= i < es.len() && es[i].0@ == k
}

/// The entries kept for output: the first entry of each key, in their
/// original order. An entry keyed `file` is dropped: the synthetic `file`
/// field of the record always wins over a key of the same name.
pub open spec fn output_entries(es: Seq<(String, serde_yaml::Value)>) -> Seq<
    (String, serde_yaml::Value),
>
    decreases es.len(),
{
    if es.len() == 0 {
        Seq::empty()
    } else {
        let prev = output_entries(es.drop_last());
        if es.last().0@ == file_key() || has_key(prev, es.last().0@) {
            prev
        } else {
            prev.push(es.last())
        }
    }
}

/// Whether some entry view carries the key `k`.
pub open spec fn view_has_key(es: Seq<(Seq<char>, serde_yaml::Value)>, k: Seq<char>) -> bool {
    exists|i: int| 0 <= i < es.len() && es[i].0 == k
}

/// `output_entries`, stated over entry views: the first entry of each key,
/// in order, with any entry keyed `file` dropped.
pub open spec fn output_views(es: Seq<(Seq<char>, serde_yaml::Value)>) -> Seq<
    (Seq<char>, serde_yaml::Value),
>
    decreases es.len(),
{
    if es.len() == 0 {
        Seq::empty()
    } else {
        let prev = output_views(es.drop_last());
        if es.last().0 == file_key() || view_has_key(prev, es.last().0) {
            prev
        } else {
            prev.push(es.last())
        }
    }
}

/// Selecting the output entries commutes with taking entry views.
pub proof fn lemma_output_entries_views(es: Seq<(String, serde_yaml::Value)>)
    ensures
        entry_views(output_entries(es)) == output_views(entry_views(es)),
    decreases es.len(),
{
    if es.len() == 0 {
        assert(entry_views(output_entries(es)) =~= output_views(entry_views(es)));
    } else {
        lemma_output_entries_views(es.drop_last());
        assert(entry_views(es).drop_last() =~= entry_views(es.drop_last()));
        let prev = output_entries(es.drop_last());
        let k = es.last().0@;
        if has_key(prev, k) {
            let w = choose|w: int| 0 <= w < prev.len() && prev[w].0@ == k;
            assert(entry_views(prev)[w].0 == k);
            assert(view_has_key(entry_views(prev), k));
        }
        if view_has_key(entry_views(prev), k) {
            let w = choose|w: int| 0 <= w < entry_views(prev).len() && entry_views(prev)[w].0 == k;
            assert(prev[w].0@ == k);
            assert(has_key(prev, k));
        }
        if !(k == file_key() || has_key(prev, k)) {
            assert(entry_views(prev.push(es.last())) =~= entry_views(prev).push(
                (k, es.last().1),
            ));
        }
    }
}

impl Record {
    /// Well-formed: entry keys are unique, and none collides with `file`.
    pub open spec fn wf(self) -> bool {
        &&& forall|i: int, j: int|
            0 <= i < j < self.entries@.len() ==> self.entries@[i].0@ != self.entries@[j].0@
        &&& forall|i: int| 0 <= i < self.entries@.len() ==> self.entries@[i].0@ != file_key()
    }
}

/// The entries kept for output have unique keys, none of them `file`.
pub proof fn lemma_output_entries_wf(es: Seq<(String, serde_yaml::Value)>)
    ensures
        forall|i: int, j: int|
            0 <= i < j < output_entries(es).len() ==> output_entries(es)[i].0@ != output_entries(
                es,
            )[j].0@,
        forall|i: int| 0 <= i < output_entries(es).len() ==> output_entries(es)[i].0@ != file_key(),
    decreases es.len(),
{
    if es.len() > 0 {
        lemma_output_entries_wf(es.drop_last());
        let prev = output_entries(es.drop_last());
        if !(es.last().0@ == file_key() || has_key(prev, es.last().0@)) {
            assert forall|i: int, j: int| 0 <= i < j < output_entries(es).len() implies
                output_entries(es)[i].0@ != output_entries(es)[j].0@ by {
                if j == output_entries(es).len() - 1 {
                    assert(!has_key(prev, es.last().0@));
                    assert(output_entries(es)[i] == prev[i]);
                }
            }
        }
    }
}

fn is_file_key(k: &String) -> (r: bool)
    ensures
        r == (k@ == file_key()),
{
    let f = String::from_str("file");
    proof {
        reveal_strlit("file");
        assert("file"@ =~= file_key());
    }
    k.eq(&f)
}

fn contains_key(es: &Vec<(String, serde_yaml::Value)>, k: &String) -> (r: bool)
    ensures
        r == has_key(es@, k@),
{
    let mut i: usize = 0;
    while i < es.len()
        invariant
            i <= es@.len(),
            forall|j: int| 0 <= j < i ==> es@[j].0@ != k@,
        decreases es@.len() - i,
    {
        let p = &es[i];
        if p.0.eq(k) {
            return true;
        }
        i = i + 1;
    }
    false
}

/// Builds the record of a document from its coerced metadata entries and its
/// path: the first entry of each key is kept, in order, an entry keyed
/// `file` is shadowed by the synthetic path field, and the path is attached.
pub fn make_record(entries: &Vec<(String, serde_yaml::Value)>, path: &str) -> (r: Record)
    ensures
        r.entries@ == output_entries(entries@),
        r.file@ == path@,
        r.wf(),
{
    let mut out: Vec<(String, serde_yaml::Value)> = Vec::new();
    let mut i: usize = 0;
    proof {
        assert(entries@.take(0) =~= Seq::<(String, serde_yaml::Value)>::empty());
    }
    while i < entries.len()
        invariant
            i <= entries@.len(),
            out@ == output_entries(entries@.take(i as int)),
        decreases entries@.len() - i,
    {
        let ghost prev = out@;
        let p = &entries[i];
        if !is_file_key(&p.0) && !contains_key(&out, &p.0) {
            out.push((p.0.clone(), p.1.clone()));
        }
        i = i + 1;
        proof {
            assert(entries@.take(i as int).drop_last() =~= entries@.take(i - 1));
            assert(entries@.take(i as int).last() == entries@[i - 1]);
        }
    }
    proof {
        assert(entries@.take(entries@.len() as int) =~= entries@);
        lemma_output_entries_wf(entries@);
    }
    Record { entries: out, file: path.to_owned() }
}

/// Extracts the frontmatter record of a document given as text.
///
/// A record comes back exactly when the text has a frontmatter block whose
/// body is well-formed YAML; the record then carries the document's path. A
/// body whose top-level value is not a mapping yields a record without
/// metadata entries.
pub fn extract(text: &str, path: &str) -> (r: Option<Record>)
    ensures
        r is Some <==> (block_text_of(text@) matches Some(b) && yaml_parses(b)),
        r matches Some(rec) ==> rec.file@ == path@ && rec.wf() && entry_views(rec.entries@)
            == output_views(metadata_of(block_text_of(text@)->Some_0)),
        (block_text_of(text@) matches Some(b) && b.len() == 0) ==> (r matches Some(rec)
            && rec.entries@.len() == 0),
{
    let body = match frontmatter_block(text) {
        Some(b) => b,
        None => {
            return None;
        },
    };
    let entries = match parse_metadata(body.as_str()) {
        Some(e) => e,
        None => {
            return None;
        },
    };
    let rec = make_record(&entries, path);
    proof {
        lemma_output_entries_views(entries@);
    }
    Some(rec)
}

/// The text that lossy UTF-8 decoding yields for a byte sequence.
pub uninterp spec fn lossy_of(bytes: Seq<u8>) -> Seq<char>;

/// Relies on `String::from_utf8_lossy`: the decoded text depends on the
/// bytes alone; invalid sequences are replaced rather than failing, and an
/// empty input decodes to the empty text.
#[verifier::external_body]
fn decode_lossy(bytes: &[u8]) -> (r: String)
    ensures
        r@ == lossy_of(bytes@),
        bytes@.len() == 0 ==> r@.len() == 0,
{
    String::from_utf8_lossy(bytes).into_owned()
}

/// Extracts the frontmatter record of a document given as raw bytes.
///
/// The bytes are decoded as text first, substituting a replacement for any
/// invalid sequence rather than failing; the record is then extracted from
/// the decoded text as `extract` describes.
pub fn extract_bytes(bytes: &[u8], path: &str) -> (r: Option<Record>)
    ensures
        r is Some <==> (block_text_of(lossy_of(bytes@)) matches Some(b) && yaml_parses(b)),
        r matches Some(rec) ==> rec.file@ == path@ && rec.wf() && entry_views(rec.entries@)
            == output_views(metadata_of(block_text_of(lossy_of(bytes@))->Some_0)),
        (block_text_of(lossy_of(bytes@)) matches Some(b) && b.len() == 0) ==> (r matches Some(rec)
            && rec.entries@.len() == 0),
{
    let text = decode_lossy(bytes);
    extract(text.as_str(), path)
}

} // verus!
