use dualpane::domain::{EntryKind, FileEntry};
use dualpane::state::AppState;
use dualpane::tree::{
    folder_children, folder_highlighted, folder_unfolded, refresh_tree, shortcut_highlighted,
    toggle_folder, tree_needs_listing,
};

fn entry(name: &str, kind: EntryKind) -> FileEntry {
    FileEntry {
        name: name.to_string(),
        path: format!("/home/{}", name),
        kind,
        size: None,
        modified: None,
        permissions: None,
    }
}

#[test]
fn refresh_tree_keeps_directories_once() {
    let mut s = AppState::new("/home".to_string());
    assert!(tree_needs_listing(&s, "/home"));
    refresh_tree(
        &mut s,
        "/home",
        Ok(vec![entry("zed", EntryKind::Dir), entry("f.txt", EntryKind::File), entry("amy", EntryKind::Dir)]),
    );
    assert!(!tree_needs_listing(&s, "/home"));
    let names: Vec<String> = folder_children(&s, "/home").into_iter().map(|e| e.name).collect();
    assert_eq!(names, vec!["amy", "zed"]);
    refresh_tree(&mut s, "/home", Ok(vec![entry("other", EntryKind::Dir)]));
    assert_eq!(folder_children(&s, "/home").len(), 2);
    assert_eq!(s.tree_children.len(), 1);
}

#[test]
fn failed_tree_listing_counts_as_empty() {
    let mut s = AppState::new("/".to_string());
    refresh_tree(&mut s, "/root", Err("denied".to_string()));
    assert!(!tree_needs_listing(&s, "/root"));
    assert!(folder_children(&s, "/root").is_empty());
    assert!(folder_children(&s, "/unknown").is_empty());
}

#[test]
fn toggling_twice_restores() {
    let mut s = AppState::new("/".to_string());
    toggle_folder(&mut s, "/home");
    assert!(!folder_unfolded(&s, "/home"));
    refresh_tree(&mut s, "/home", Ok(Vec::new()));
    refresh_tree(&mut s, "/tmp", Ok(Vec::new()));
    toggle_folder(&mut s, "/tmp");
    toggle_folder(&mut s, "/home");
    assert!(folder_unfolded(&s, "/home"));
    assert!(folder_unfolded(&s, "/tmp"));
    toggle_folder(&mut s, "/home");
    assert!(!folder_unfolded(&s, "/home"));
    assert!(folder_unfolded(&s, "/tmp"));
}

#[test]
fn highlights() {
    let s = AppState::new("/home/user/music".to_string());
    assert!(folder_highlighted(&s, "/home"));
    assert!(folder_highlighted(&s, "/home/user/music"));
    assert!(!folder_highlighted(&s, "/"));
    assert!(!folder_highlighted(&s, "/home/us"));
    assert!(shortcut_highlighted(&s, "/"));
    assert!(shortcut_highlighted(&s, "/home/us"));
    assert!(!shortcut_highlighted(&s, "/tmp"));
}
