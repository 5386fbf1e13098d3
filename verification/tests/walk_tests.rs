use zindex_tree::walk::{
    contains, has_source_extension, is_fatal_failure, is_hidden, is_listed_extension, keep_entry,
    scans_file,
    DEPENDENCY_CACHE_SEGMENT,
};

#[test]
fn names_with_a_leading_dot_are_hidden() {
    assert!(is_hidden(".git"));
    assert!(is_hidden(".env.ts"));
    assert!(is_hidden("."));
    assert!(is_hidden(".."));
    assert!(!is_hidden(""));
    assert!(!is_hidden("src"));
    assert!(!is_hidden("a.b"));
    assert!(!is_hidden("x."));
}

#[test]
fn contains_finds_a_part_anywhere() {
    assert!(contains("abc", ""));
    assert!(contains("", ""));
    assert!(!contains("", "a"));
    assert!(contains("abc", "a"));
    assert!(contains("abc", "bc"));
    assert!(contains("abc", "abc"));
    assert!(!contains("abc", "abcd"));
    assert!(!contains("abc", "ac"));
    assert!(contains("aab", "ab"));
    assert!(contains("ünï├cödé", "├c"));
}

#[test]
fn contains_agrees_with_the_standard_library() {
    let texts = ["", "a", "ab", "aba", "abab", "/node_modules/", "x/node_modules/y", "node_modules"];
    let parts = ["", "a", "b", "ab", "ba", "aba", "bab", "/node_modules/", "node_modules", "/"];
    for text in texts {
        for part in parts {
            assert_eq!(contains(text, part), text.contains(part), "{:?} in {:?}", part, text);
        }
    }
}

#[test]
fn dependency_cache_is_named_between_slashes() {
    assert_eq!(DEPENDENCY_CACHE_SEGMENT, "/node_modules/");
}

#[test]
fn hidden_entries_are_not_kept() {
    assert!(!keep_entry(Some(".git"), "root/.git"));
    assert!(!keep_entry(Some(".cache"), "root/a/.cache"));
    assert!(!keep_entry(Some(".eslintrc.js"), "root/.eslintrc.js"));
}

#[test]
fn entries_below_a_dependency_cache_are_not_kept() {
    assert!(!keep_entry(Some("y.js"), "root/node_modules/y.js"));
    assert!(!keep_entry(Some("pkg"), "root/node_modules/pkg"));
    assert!(!keep_entry(Some("z.ts"), "root/a/node_modules/pkg/src/z.ts"));
    assert!(!keep_entry(None, "root/node_modules/.."));
}

#[test]
fn other_entries_are_kept() {
    assert!(keep_entry(Some("src"), "root/src"));
    assert!(keep_entry(Some("a.tsx"), "root/src/a.tsx"));
    assert!(keep_entry(None, "."));
    assert!(keep_entry(None, ".."));
    assert!(keep_entry(Some("node_modules"), "root/node_modules"));
    assert!(keep_entry(Some("my_node_modules_x"), "root/my_node_modules_x/a.ts"));
}

#[test]
fn source_extensions_are_listed() {
    assert!(is_listed_extension("js"));
    assert!(is_listed_extension("jsx"));
    assert!(is_listed_extension("ts"));
    assert!(is_listed_extension("tsx"));
    assert!(!is_listed_extension("JS"));
    assert!(!is_listed_extension("css"));
    assert!(!is_listed_extension(""));
    assert!(!is_listed_extension("j"));
    assert!(!is_listed_extension("tsxx"));
    assert!(!is_listed_extension("mjs"));
}

#[test]
fn extensions_are_compared_without_regard_to_case() {
    assert!(has_source_extension("js"));
    assert!(has_source_extension("JS"));
    assert!(has_source_extension("Jsx"));
    assert!(has_source_extension("TS"));
    assert!(has_source_extension("tSx"));
    assert!(!has_source_extension("CSS"));
    assert!(!has_source_extension("json"));
    assert!(!has_source_extension(""));
}

#[test]
fn only_regular_files_with_a_source_extension_are_scanned() {
    assert!(scans_file(true, Some("tsx")));
    assert!(scans_file(true, Some("TS")));
    assert!(!scans_file(false, Some("ts")));
    assert!(!scans_file(true, Some("css")));
    assert!(!scans_file(true, None));
    assert!(!scans_file(false, None));
}

#[test]
fn only_a_failure_at_the_root_is_fatal() {
    assert!(is_fatal_failure(0));
    assert!(!is_fatal_failure(1));
    assert!(!is_fatal_failure(7));
}
