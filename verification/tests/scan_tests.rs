use zindex_tree::entry::ZIndexEntry;
use zindex_tree::error::ScanError;
use zindex_tree::pattern::{matched_value, Matcher, UNKNOWN_VALUE, Z_INDEX_PATTERN};
use zindex_tree::scan::{entry_for_line, scan_bytes, scan_content, scan_lines, scan_with};

fn entry(file_path: &str, z_index: &str, line_number: usize) -> ZIndexEntry {
    ZIndexEntry { file_path: file_path.to_string(), z_index: z_index.to_string(), line_number }
}

fn values(content: &str) -> Vec<String> {
    scan_content("f.ts", content).unwrap().into_iter().map(|e| e.z_index).collect()
}

#[test]
fn new_entry_copies_its_arguments() {
    assert_eq!(ZIndexEntry::new("a.ts", "12", 3), entry("a.ts", "12", 3));
}

#[test]
fn first_participating_group_is_the_value() {
    let groups = vec![Some("z-[999]".to_string()), Some("999".to_string()), None, None, None];
    assert_eq!(matched_value(&groups), "999");
    let groups = vec![Some("z-index: 4".to_string()), None, None, None, Some("4".to_string())];
    assert_eq!(matched_value(&groups), "4");
    let groups = vec![Some("x".to_string()), None, Some("2".to_string()), Some("3".to_string())];
    assert_eq!(matched_value(&groups), "2");
}

#[test]
fn match_without_a_group_gives_the_fallback() {
    assert_eq!(UNKNOWN_VALUE, "unknown");
    assert_eq!(matched_value(&vec![Some("z-".to_string()), None, None]), "unknown");
    assert_eq!(matched_value(&vec![Some("whole".to_string())]), "unknown");
    assert_eq!(matched_value(&Vec::new()), "unknown");
}

#[test]
fn entry_for_line_follows_the_search() {
    assert_eq!(entry_for_line("a.ts", 4, None), None);
    let found = Some(vec![Some("z-7".to_string()), None, Some("7".to_string()), None, None]);
    assert_eq!(entry_for_line("a.ts", 4, found), Some(entry("a.ts", "7", 4)));
    let found = Some(vec![Some("z-".to_string()), None, None, None, None]);
    assert_eq!(entry_for_line("a.ts", 9, found), Some(entry("a.ts", "unknown", 9)));
}

#[test]
fn bracketed_utility_class_is_found() {
    assert_eq!(
        scan_content("src/a.ts", "const z = \"z-[999]\";").unwrap(),
        vec![entry("src/a.ts", "999", 1)]
    );
}

#[test]
fn bare_utility_class_is_found() {
    assert_eq!(
        scan_content("src/a.tsx", "<div className=\"z-45 p-2\" />").unwrap(),
        vec![entry("src/a.tsx", "45", 1)]
    );
}

#[test]
fn style_property_is_found() {
    assert_eq!(values("style={{ zIndex: 10 }}"), vec!["10"]);
    assert_eq!(values("style={{ zIndex:10 }}"), vec!["10"]);
    assert_eq!(values("style={{ zIndex:\t  10 }}"), vec!["10"]);
}

#[test]
fn css_property_is_found() {
    assert_eq!(values("  z-index: 10;"), vec!["10"]);
    assert_eq!(values("  z-index:10;"), vec!["10"]);
}

#[test]
fn lines_without_a_declaration_give_nothing() {
    assert_eq!(values(""), Vec::<String>::new());
    assert_eq!(values("const x = 1;\nlet z = 2;\n"), Vec::<String>::new());
    assert_eq!(values("z-[abc]"), Vec::<String>::new());
    assert_eq!(values("zIndex: auto"), Vec::<String>::new());
    assert_eq!(values("z-index = 3"), Vec::<String>::new());
    assert_eq!(values("Z-INDEX: 3"), Vec::<String>::new());
}

#[test]
fn only_the_first_declaration_of_a_line_counts() {
    assert_eq!(values("z-10 z-20 z-[30]"), vec!["10"]);
    assert_eq!(values("zIndex: 7, z-[8]"), vec!["7"]);
    assert_eq!(values("a z-index: 1; b z-2"), vec!["1"]);
}

#[test]
fn unclosed_bracket_gives_no_value() {
    assert_eq!(values("z-[12"), Vec::<String>::new());
    assert_eq!(values("z-[12 z-3"), vec!["3"]);
}

#[test]
fn digits_of_other_scripts_are_recorded_as_written() {
    assert_eq!(values("z-٣٤"), vec!["٣٤"]);
}

#[test]
fn line_numbers_count_from_one() {
    let content = "import x;\nz-10\n\n  zIndex: 3,\r\nnothing\nz-index: 999;";
    assert_eq!(
        scan_content("p/q.jsx", content).unwrap(),
        vec![entry("p/q.jsx", "10", 2), entry("p/q.jsx", "3", 4), entry("p/q.jsx", "999", 6)]
    );
}

#[test]
fn line_numbers_stay_within_the_file() {
    let content = "z-1\nx\nz-2\nx\nx\nz-[3]\n";
    let total = content.lines().count();
    let found = scan_content("f.js", content).unwrap();
    assert_eq!(found.len(), 3);
    let mut last = 0;
    for e in &found {
        assert!(1 <= e.line_number && e.line_number <= total);
        assert!(e.line_number > last);
        last = e.line_number;
    }
}

#[test]
fn equal_lines_in_different_files_give_independent_entries() {
    let a = scan_content("a.ts", "z-5").unwrap();
    let b = scan_content("b.ts", "z-5").unwrap();
    assert_eq!(a, vec![entry("a.ts", "5", 1)]);
    assert_eq!(b, vec![entry("b.ts", "5", 1)]);
}

#[test]
fn scan_lines_uses_the_matcher_it_is_given() {
    let matcher = Matcher::new("x(\\d)|y(\\d)").unwrap();
    let lines = vec!["x1".to_string(), "none".to_string(), "ay2 x3".to_string()];
    assert_eq!(
        scan_lines(&matcher, "f", &lines),
        vec![entry("f", "1", 1), entry("f", "2", 3)]
    );
    let plain = Matcher::new("ab").unwrap();
    assert_eq!(scan_lines(&plain, "f", &vec!["cab".to_string()]), vec![entry("f", "unknown", 1)]);
}

#[test]
fn stacking_order_pattern_compiles() {
    assert!(Matcher::new(Z_INDEX_PATTERN).is_ok());
}

#[test]
fn rejected_pattern_is_an_invalid_pattern_error() {
    let made = Matcher::new("z-(\\d+");
    match made {
        Err(ScanError::InvalidPattern { detail }) => {
            assert!(detail.contains("unclosed group"), "detail {:?}", detail)
        }
        _ => panic!("the pattern should not compile"),
    }
}

#[test]
fn scan_with_hands_on_the_failure() {
    let failure = ScanError::InvalidPattern { detail: "bad".to_string() };
    assert_eq!(scan_with(Err(failure.clone()), "f.ts", "z-1"), Err(failure));
    assert_eq!(
        scan_with(Matcher::new(Z_INDEX_PATTERN), "f.ts", "z-1"),
        Ok(vec![entry("f.ts", "1", 1)])
    );
}

#[test]
fn bytes_are_decoded_before_the_scan() {
    let bytes = "// ├─\nz-[12]\n".as_bytes().to_vec();
    assert_eq!(scan_bytes("u.ts", bytes), Ok(vec![entry("u.ts", "12", 2)]));
    assert_eq!(scan_bytes("u.ts", Vec::new()), Ok(Vec::new()));
}

#[test]
fn invalid_encoding_makes_the_file_unreadable() {
    let bytes = vec![b'z', b'-', b'1', b'\n', 0xff, 0xfe];
    assert_eq!(
        scan_bytes("bad.ts", bytes),
        Err(ScanError::Unreadable { file_path: "bad.ts".to_string() })
    );
    assert_eq!(
        scan_bytes("cut.ts", vec![0xe2, 0x94]),
        Err(ScanError::Unreadable { file_path: "cut.ts".to_string() })
    );
}

#[test]
fn error_messages_name_the_cause() {
    let unreadable = ScanError::Unreadable { file_path: "dir/x.ts".to_string() };
    assert_eq!(unreadable.message(), "Failed to read file: dir/x.ts");
    let rejected = ScanError::InvalidPattern { detail: "unclosed group".to_string() };
    assert_eq!(rejected.message(), "unclosed group");
}
