use frust::emit::frame_records;
use frust::emit::render_all;
use frust::emit::render_record;
use frust::record::extract;
use frust::record::Record;

fn keys_of(v: &serde_json::Value) -> Vec<String> {
    v.as_object().unwrap().keys().cloned().collect()
}

#[test]
fn note_md_scenario() {
    let text = "---\ntitle: Hello\ntags:\n  - a\n  - b\n---\nBody text\n";
    let rec = extract(text, "note.md").unwrap();
    let json = render_record(&rec).unwrap();
    let actual: serde_json::Value = serde_json::from_str(&json).unwrap();
    let expected: serde_json::Value = serde_json::from_str(
        "{\"title\": \"Hello\", \"tags\": [\"a\", \"b\"], \"file\": \"note.md\"}",
    )
    .unwrap();
    assert_eq!(actual, expected);
    assert_eq!(keys_of(&actual), vec!["title", "tags", "file"]);
}

#[test]
fn rendered_record_is_pretty_printed() {
    let rec = extract("---\ntitle: Hello\n---\n", "n.md").unwrap();
    let json = render_record(&rec).unwrap();
    assert_eq!(json, "{\n  \"title\": \"Hello\",\n  \"file\": \"n.md\"\n}");
}

#[test]
fn empty_block_renders_only_the_file_key() {
    let rec = extract("---\n---\n", "only.md").unwrap();
    let json = render_record(&rec).unwrap();
    let v: serde_json::Value = serde_json::from_str(&json).unwrap();
    assert_eq!(keys_of(&v), vec!["file"]);
    assert_eq!(v.as_object().unwrap().get("file").unwrap().as_str(), Some("only.md"));
}

#[test]
fn nested_structure_round_trips() {
    let text = "---\nouter:\n  inner:\n    - 1\n    - two\n  flag: true\nempty: null\n---\n";
    let rec = extract(text, "deep.md").unwrap();
    let json = render_record(&rec).unwrap();
    let actual: serde_json::Value = serde_json::from_str(&json).unwrap();
    let expected: serde_json::Value = serde_json::from_str(
        "{\"outer\": {\"inner\": [1, \"two\"], \"flag\": true}, \"empty\": null, \"file\": \"deep.md\"}",
    )
    .unwrap();
    assert_eq!(actual, expected);
    assert_eq!(keys_of(&actual), vec!["outer", "empty", "file"]);
}

#[test]
fn unconvertible_value_fails_rendering() {
    // The nested mapping's key is null, which JSON cannot carry.
    let rec = extract("---\nouter:\n  ~: x\n---\n", "n.md").unwrap();
    assert_eq!(rec.entries.len(), 1);
    assert!(render_record(&rec).is_none());
    let records = vec![rec];
    assert!(render_all(&records).is_none());
}

#[test]
fn frame_records_terminates_each_object() {
    let parts: Vec<String> = vec![String::from("A"), String::from("{}")];
    assert_eq!(frame_records(&parts), "A\n{}\n");
    let none: Vec<String> = Vec::new();
    assert_eq!(frame_records(&none), "");
}

#[test]
fn render_all_keeps_order_and_count() {
    let docs = [
        ("---\nn: 1\n---\n", "a.md"),
        ("---\nn: 2\n---\n", "b.md"),
    ];
    let records: Vec<Record> =
        docs.iter().filter_map(|(text, path)| extract(text, path)).collect();
    let rendered = render_all(&records).unwrap();
    assert_eq!(rendered.len(), 2);
    assert!(rendered[0].contains("a.md"));
    assert!(rendered[1].contains("b.md"));
}

#[test]
fn pipeline_is_deterministic_on_unchanged_input() {
    let docs = [
        ("---\ntitle: One\n---\nbody\n", "one.md"),
        ("no frontmatter here\n", "none.md"),
        ("---\ntitle: Two\ntags:\n  - x\n---\n", "two.md"),
    ];
    let run = || {
        let records: Vec<Record> =
            docs.iter().filter_map(|(text, path)| extract(text, path)).collect();
        frame_records(&render_all(&records).unwrap())
    };
    assert_eq!(run(), run());
}

#[test]
fn three_documents_one_without_frontmatter() {
    let docs = [
        ("---\na: 1\n---\n", "a.md"),
        ("plain body, no block\n", "b.md"),
        ("---\nc: 3\n---\n", "c.md"),
    ];
    let records: Vec<Record> =
        docs.iter().filter_map(|(text, path)| extract(text, path)).collect();
    assert_eq!(records.len(), 2);
    let out = frame_records(&render_all(&records).unwrap());
    assert_eq!(out.matches("\"file\"").count(), 2);
}
