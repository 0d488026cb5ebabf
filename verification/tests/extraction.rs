use frust::block::frontmatter_block;
use frust::record::extract;
use frust::record::extract_bytes;

#[test]
fn well_formed_block_yields_key_and_file() {
    let text = "---\ntitle: Hello\n---\nBody text\n";
    let rec = extract(text, "note.md").unwrap();
    assert_eq!(rec.file, "note.md");
    assert_eq!(rec.entries.len(), 1);
    assert_eq!(rec.entries[0].0, "title");
    assert_eq!(rec.entries[0].1.as_str(), Some("Hello"));
}

#[test]
fn no_delimiter_no_record() {
    let text = "just text\nwith: a colon\nbut no block\n";
    assert!(extract(text, "a.md").is_none());
    assert!(frontmatter_block(text).is_none());
}

#[test]
fn unclosed_block_runs_to_end() {
    let text = "---\ntitle: Open\nkind: note\n";
    let rec = extract(text, "open.md").unwrap();
    assert_eq!(rec.entries.len(), 2);
    assert_eq!(rec.entries[0].0, "title");
    assert_eq!(rec.entries[0].1.as_str(), Some("Open"));
    assert_eq!(rec.entries[1].0, "kind");
}

#[test]
fn empty_block_yields_bare_record() {
    let text = "---\n---\nBody\n";
    let rec = extract(text, "empty.md").unwrap();
    assert!(rec.entries.is_empty());
    assert_eq!(rec.file, "empty.md");
}

#[test]
fn delimiter_need_not_open_the_document() {
    let text = "intro line\n---\nkey: value\n---\nrest\n";
    let rec = extract(text, "mid.md").unwrap();
    assert_eq!(rec.entries.len(), 1);
    assert_eq!(rec.entries[0].0, "key");
    assert_eq!(rec.entries[0].1.as_str(), Some("value"));
}

#[test]
fn trailing_space_is_not_a_delimiter() {
    // The first line is not exactly `---`, so the block opens at the later
    // bare delimiter and runs unclosed to the end of the document.
    let text = "--- \nk: v\n";
    assert!(frontmatter_block(text).is_none());
    let text2 = "--- \nk: v\n---\n";
    let rec = extract(text2, "t.md").unwrap();
    assert!(rec.entries.is_empty());
}

#[test]
fn non_mapping_top_level_yields_no_entries() {
    let text = "---\n- a\n- b\n---\n";
    let rec = extract(text, "seq.md").unwrap();
    assert!(rec.entries.is_empty());
    assert_eq!(rec.file, "seq.md");
}

#[test]
fn malformed_yaml_yields_no_record() {
    let text = "---\nkey: [unclosed\n---\n";
    assert!(extract(text, "bad.md").is_none());
}

#[test]
fn non_string_keys_are_dropped() {
    let text = "---\n1: one\ntrue: certainly\nname: x\n---\n";
    let rec = extract(text, "keys.md").unwrap();
    assert_eq!(rec.entries.len(), 1);
    assert_eq!(rec.entries[0].0, "name");
    assert_eq!(rec.entries[0].1.as_str(), Some("x"));
}

#[test]
fn own_file_key_is_shadowed() {
    let text = "---\nfile: elsewhere.md\ntitle: T\n---\n";
    let rec = extract(text, "here.md").unwrap();
    assert_eq!(rec.entries.len(), 1);
    assert_eq!(rec.entries[0].0, "title");
    assert_eq!(rec.file, "here.md");
}

#[test]
fn invalid_bytes_are_replaced_not_fatal() {
    let mut bytes: Vec<u8> = Vec::new();
    bytes.extend_from_slice("---\ntitle: caf".as_bytes());
    bytes.push(0xff);
    bytes.extend_from_slice("\n---\n".as_bytes());
    let rec = extract_bytes(&bytes, "caf.md").unwrap();
    assert_eq!(rec.entries.len(), 1);
    let title = rec.entries[0].1.as_str().unwrap();
    assert!(title.contains('\u{fffd}'));
}

#[test]
fn bytes_and_text_agree_on_valid_utf8() {
    let text = "---\na: 1\n---\n";
    let from_text = extract(text, "p.md").unwrap();
    let from_bytes = extract_bytes(text.as_bytes(), "p.md").unwrap();
    assert_eq!(from_text.file, from_bytes.file);
    assert_eq!(from_text.entries, from_bytes.entries);
}

#[test]
fn block_body_is_the_lines_between_delimiters() {
    assert_eq!(frontmatter_block("a\n---\nx\n---\nb").unwrap(), "x\n");
    assert_eq!(frontmatter_block("---\nx: 1\ny: 2\n---").unwrap(), "x: 1\ny: 2\n");
    assert_eq!(frontmatter_block("---\nx").unwrap(), "x\n");
    assert_eq!(frontmatter_block("---").unwrap(), "");
    assert_eq!(frontmatter_block("---\n---").unwrap(), "");
}

#[test]
fn duplicate_top_level_keys_fail_the_parse() {
    let text = "---\na: 1\na: 2\n---\n";
    assert!(extract(text, "dup.md").is_none());
}
