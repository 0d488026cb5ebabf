use frust::usage::check_usage;
use frust::usage::is_md_file;
use frust::usage::UsageError;

#[test]
fn directory_needs_the_recursive_flag() {
    assert_eq!(check_usage("somedir", true, false), Err(UsageError::DirectoryNotRecursive));
    assert_eq!(check_usage("somedir", true, true), Ok(()));
}

#[test]
fn single_file_must_be_markdown() {
    assert_eq!(check_usage("notes.txt", false, false), Err(UsageError::NotMarkdown));
    assert_eq!(check_usage("notes.txt", false, true), Err(UsageError::NotMarkdown));
    assert_eq!(check_usage("notes.md", false, false), Ok(()));
}

#[test]
fn markdown_extension_filter() {
    assert!(is_md_file("a.md"));
    assert!(is_md_file("dir/sub/b.md"));
    assert!(is_md_file("a.tar.md"));
    assert!(!is_md_file(".md"));
    assert!(!is_md_file("dir/.md"));
    assert!(!is_md_file("a.MD"));
    assert!(!is_md_file("a.mdx"));
    assert!(!is_md_file("md"));
    assert!(!is_md_file("amd"));
    assert!(!is_md_file(""));
}

#[test]
fn usage_errors_carry_their_message() {
    assert_eq!(
        UsageError::DirectoryNotRecursive.message(),
        "Input is a directory, but --recursive was not specified"
    );
    assert_eq!(UsageError::NotMarkdown.message(), "File must have a .md extension");
}
