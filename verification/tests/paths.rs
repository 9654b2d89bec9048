use dualpane::paths::{is_on_path_to, join_path, parent_path, remote_parent, starts_with};

#[test]
fn remote_parent_of_root_is_root() {
    assert_eq!(remote_parent("/"), "/");
    assert_eq!(remote_parent("//"), "/");
    assert_eq!(remote_parent(""), "/");
}

#[test]
fn remote_parent_drops_last_component() {
    assert_eq!(remote_parent("/home/user/docs"), "/home/user");
    assert_eq!(remote_parent("/home/user/docs/"), "/home/user");
    assert_eq!(remote_parent("/home"), "/");
    assert_eq!(remote_parent("/home/"), "/");
}

#[test]
fn remote_parent_of_relative_paths() {
    assert_eq!(remote_parent("docs"), "/");
    assert_eq!(remote_parent("a/b"), "a");
}

#[test]
fn remote_parent_keeps_doubled_separators_inside() {
    assert_eq!(remote_parent("/a//b"), "/a/");
}

#[test]
fn remote_parent_repeatedly_reaches_root() {
    let mut p = String::from("/srv/data/2024/reports/");
    let mut steps = 0;
    while p != "/" {
        p = remote_parent(&p);
        steps += 1;
        assert!(steps < 10);
    }
    assert_eq!(steps, 4);
}

#[test]
fn remote_parent_undoes_join() {
    assert_eq!(remote_parent(&join_path("/srv/data/", "file.txt")), "/srv/data");
    assert_eq!(remote_parent(&join_path("/", "file.txt")), "/");
    assert_eq!(remote_parent(&join_path("", "file.txt")), "/");
}

#[test]
fn join_path_uses_one_separator() {
    assert_eq!(join_path("/srv/data", "a.txt"), "/srv/data/a.txt");
    assert_eq!(join_path("/srv/data///", "a.txt"), "/srv/data/a.txt");
    assert_eq!(join_path("/", "a.txt"), "/a.txt");
    assert_eq!(join_path("", "a.txt"), "/a.txt");
    assert_eq!(join_path("dir", "ä ü.txt"), "dir/ä ü.txt");
}

#[test]
fn parent_path_follows_std() {
    assert_eq!(parent_path("/home/user"), "/home");
    assert_eq!(parent_path("/home/user/"), "/home");
    assert_eq!(parent_path("/home"), "/");
    assert_eq!(parent_path("/"), "/");
    assert_eq!(parent_path("file"), "");
    assert_eq!(parent_path(""), "");
    for p in ["/a/b/c", "/x//y", "rel/dir", "/a/./b"] {
        let expected = std::path::Path::new(p)
            .parent()
            .map(|q| q.to_string_lossy().to_string())
            .unwrap_or_else(|| p.to_string());
        assert_eq!(parent_path(p), expected);
    }
}

#[test]
fn starts_with_compares_characters() {
    assert!(starts_with("/home/user", "/home"));
    assert!(starts_with("/home", ""));
    assert!(starts_with("/home", "/home"));
    assert!(!starts_with("/ho", "/home"));
    assert!(!starts_with("/house", "/home"));
}

#[test]
fn on_path_to_is_component_wise() {
    assert!(is_on_path_to("/home/user", "/home"));
    assert!(is_on_path_to("/home", "/home"));
    assert!(!is_on_path_to("/homework", "/home"));
    assert!(is_on_path_to("/", "/"));
    assert!(!is_on_path_to("/home", "/"));
    assert!(!is_on_path_to("/home", "/home/user"));
}
