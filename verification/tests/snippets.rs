use app_cores::snippets::{add_snippet, edit_snippet};

#[test]
fn add_snippet_stores_what_it_is_given() {
    let snippet = add_snippet(
        "quicksort",
        "rust",
        vec!["sort".to_string(), "algorithm".to_string()],
        "fn quicksort() {}",
    );
    assert_eq!(snippet.title, "quicksort");
    assert_eq!(snippet.language, "rust");
    assert_eq!(snippet.tags, vec!["sort".to_string(), "algorithm".to_string()]);
    assert_eq!(snippet.content, "fn quicksort() {}");
    assert_eq!(snippet.file_name(), "quicksort.json");
}

#[test]
fn edit_snippet_replaces_content_and_tags() {
    let snippet = add_snippet("hello", "c", vec!["io".to_string()], "puts(\"hi\");");
    let edited = edit_snippet(snippet, "printf(\"hi\");", vec!["stdio".to_string()]);
    assert_eq!(edited.title, "hello");
    assert_eq!(edited.language, "c");
    assert_eq!(edited.tags, vec!["stdio".to_string()]);
    assert_eq!(edited.content, "printf(\"hi\");");
    assert_eq!(edited.file_name(), "hello.json");
}

#[test]
fn snippets_are_found_by_tag() {
    let snippet = add_snippet("t", "rust", vec!["a".to_string(), "bc".to_string()], "");
    assert!(snippet.has_tag("a"));
    assert!(snippet.has_tag("bc"));
    assert!(!snippet.has_tag("b"));
    assert!(!snippet.has_tag("A"));
    assert!(!snippet.has_tag(""));
    let bare = add_snippet("t", "rust", Vec::new(), "");
    assert!(!bare.has_tag("a"));
}
