use sendme::fuzzy::{fuzzy_match, fuzzy_score, FileInfo, FileSearchPopup};

fn info(path: &str, rel: &str) -> FileInfo {
    FileInfo { path: path.to_string(), relative_path: rel.to_string(), is_dir: false }
}

#[test]
fn test_fuzzy_score_exact_match() {
    let score = fuzzy_score("test", "test");
    assert!(score.is_some());
    assert!(score.unwrap() > 0);
}

#[test]
fn test_fuzzy_score_substring() {
    let score = fuzzy_score("test", "mytestfile");
    assert!(score.is_some());
}

#[test]
fn test_fuzzy_score_consecutive() {
    let consecutive = fuzzy_score("abc", "abc");
    let spaced = fuzzy_score("abc", "a_b_c");
    assert!(consecutive.unwrap() > spaced.unwrap());
}

#[test]
fn test_fuzzy_score_no_match() {
    let score = fuzzy_score("xyz", "abcdef");
    assert!(score.is_none());
}

#[test]
fn test_fuzzy_score_case_insensitive() {
    let score1 = fuzzy_score("test", "testfile");
    let text_lower = "TESTFILE".to_lowercase();
    let score2 = fuzzy_score("test", &text_lower);
    assert!(score1.is_some());
    assert!(score2.is_some());
}

#[test]
fn test_fuzzy_match_ordering() {
    let files = vec![
        info("/test/file.rs", "test/file.rs"),
        info("/abc.rs", "abc.rs"),
        info("/a_b_c.rs", "a_b_c.rs"),
    ];
    let indices = fuzzy_match("abc", &files);
    assert!(!indices.is_empty());
    let abc_idx = files.iter().position(|f| f.relative_path == "abc.rs");
    let spaced_idx = files.iter().position(|f| f.relative_path == "a_b_c.rs");
    if let (Some(abc), Some(spaced)) = (abc_idx, spaced_idx) {
        let abc_pos = indices.iter().position(|&i| i == abc);
        let spaced_pos = indices.iter().position(|&i| i == spaced);
        assert!(abc_pos < spaced_pos);
    }
}

#[test]
fn fuzzy_score_exact_values() {
    // a at 0: 10 + 15; b: 10 + 30; c: 10 + 30; length bonus 10
    assert_eq!(fuzzy_score("abc", "abc"), Some(115));
    // a at 0: 25; b after '_': 10 + 5 + 15; c after '_': 10 + 5 + 15; length bonus 10
    assert_eq!(fuzzy_score("abc", "a_b_c"), Some(95));
    assert_eq!(fuzzy_score("", "anything"), Some(0));
    assert_eq!(fuzzy_score("a", ""), None);
}

#[test]
fn fuzzy_score_is_case_sensitive() {
    assert_eq!(fuzzy_score("T", "t"), None);
}

#[test]
fn fuzzy_match_ignores_case_and_drops_misses() {
    let files = vec![info("/x/README.md", "README.md"), info("/x/zzz", "zzz"), info("/x/readme.txt", "readme.txt")];
    let r = fuzzy_match("ReadMe", &files);
    assert_eq!(r.len(), 2);
    assert!(r.contains(&0));
    assert!(r.contains(&2));
    assert!(!r.contains(&1));
}

#[test]
fn popup_filters_and_wraps_selection() {
    let mut p = FileSearchPopup::new("/base".to_string());
    p.refresh_files_sync(vec![info("/base/a.txt", "a.txt"), info("/base/b.txt", "b.txt"), info("/base/c.rs", "c.rs")]);
    assert_eq!(p.filtered_indices, vec![0, 1, 2]);
    p.move_selection(-1);
    assert_eq!(p.selected_index, 2);
    p.move_selection(1);
    assert_eq!(p.selected_index, 0);
    p.update_query('t');
    p.update_query('x');
    assert_eq!(p.query, "tx");
    assert_eq!(p.filtered_indices.len(), 2);
    assert_eq!(p.selected_index, 0);
    p.remove_char();
    assert_eq!(p.query, "t");
    p.set_query("rs".to_string());
    assert_eq!(p.filtered_indices, vec![2]);
    assert_eq!(p.selected_path(), Some("/base/c.rs".to_string()));
    p.set_query("qqq".to_string());
    assert!(p.selected_file().is_none());
    assert_eq!(p.selected_path(), None);
}

#[test]
fn fuzzy_match_exact_ranking_and_ties() {
    let files = vec![info("/test/file.rs", "test/file.rs"), info("/abc.rs", "abc.rs"), info("/a_b_c.rs", "a_b_c.rs")];
    assert_eq!(fuzzy_match("abc", &files), vec![1, 2]);
    let twins = vec![info("/bx", "bx"), info("/ax", "ax"), info("/cx", "cx")];
    assert_eq!(fuzzy_score("x", "bx"), fuzzy_score("x", "ax"));
    assert_eq!(fuzzy_match("x", &twins), vec![0, 1, 2]);
    let mut p = FileSearchPopup::new("/".to_string());
    p.refresh_files_sync(vec![info("/bx", "bx"), info("/ax", "ax"), info("/cx", "cx")]);
    p.set_query("x".to_string());
    assert_eq!(p.filtered_indices, fuzzy_match("x", &p.files));
}
