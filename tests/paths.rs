use sendme::error::ErrorKind;
use sendme::paths::{canonicalized_path_to_string, get_export_path, split_name, validate_path_component, PathComponent};

fn normal(s: &str) -> PathComponent {
    PathComponent::Normal(s.to_string())
}

#[test]
fn component_rules() {
    assert!(validate_path_component("file.txt").is_ok());
    assert_eq!(validate_path_component("a/b"), Err(ErrorKind::InvalidPath));
    assert_eq!(validate_path_component("a\\b"), Err(ErrorKind::InvalidPath));
    assert_eq!(validate_path_component(""), Err(ErrorKind::InvalidPath));
    assert_eq!(validate_path_component("."), Err(ErrorKind::InvalidPath));
    assert_eq!(validate_path_component(".."), Err(ErrorKind::InvalidPath));
    assert_eq!(validate_path_component("a\0b"), Err(ErrorKind::InvalidPath));
    assert!(validate_path_component("...").is_ok());
}

#[test]
fn relative_names_join_with_slash() {
    let parts = vec![normal("src"), normal("sub"), normal("b.txt")];
    assert_eq!(canonicalized_path_to_string(&parts, true), Ok("src/sub/b.txt".to_string()));
}

#[test]
fn absolute_paths_only_when_allowed() {
    let parts = vec![PathComponent::RootDir, normal("tmp"), normal("a")];
    assert_eq!(canonicalized_path_to_string(&parts, false), Ok("/tmp/a".to_string()));
    assert_eq!(canonicalized_path_to_string(&parts, true), Err(ErrorKind::InvalidPath));
}

#[test]
fn dot_components_and_separators_are_rejected() {
    let with_parent = vec![normal("a"), PathComponent::ParentDir, normal("b")];
    assert_eq!(canonicalized_path_to_string(&with_parent, true), Err(ErrorKind::InvalidPath));
    let with_cur = vec![PathComponent::CurDir, normal("b")];
    assert_eq!(canonicalized_path_to_string(&with_cur, true), Err(ErrorKind::InvalidPath));
    let with_backslash = vec![normal("a\\b")];
    assert_eq!(canonicalized_path_to_string(&with_backslash, true), Err(ErrorKind::InvalidPath));
    assert_eq!(canonicalized_path_to_string(&vec![PathComponent::Unreadable], true), Err(ErrorKind::InvalidPath));
    assert_eq!(canonicalized_path_to_string(&vec![], true), Ok(String::new()));
}

#[test]
fn export_path_appends_name_components() {
    let root = vec!["/".to_string(), "tmp".to_string(), "dst".to_string()];
    let p = get_export_path(&root, "src/sub/b.txt").unwrap();
    assert_eq!(p, vec!["/", "tmp", "dst", "src", "sub", "b.txt"]);
    assert_eq!(get_export_path(&root, "src/../etc"), Err(ErrorKind::InvalidPath));
    assert_eq!(get_export_path(&root, "a//b"), Err(ErrorKind::InvalidPath));
    assert_eq!(get_export_path(&root, "a\\b"), Err(ErrorKind::InvalidPath));
}

#[test]
fn split_keeps_empty_pieces() {
    assert_eq!(split_name(""), vec![String::new()]);
    assert_eq!(split_name("a/"), vec!["a".to_string(), String::new()]);
    assert_eq!(split_name("x/y"), vec!["x".to_string(), "y".to_string()]);
}
