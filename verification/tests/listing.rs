use dualpane::domain::{EntryKind, FileEntry};
use dualpane::listing::{make_parent_entry, name_less, sorted_for_table, table_order};

fn entry(name: &str, kind: EntryKind) -> FileEntry {
    FileEntry {
        name: name.to_string(),
        path: format!("/x/{}", name),
        kind,
        size: None,
        modified: None,
        permissions: None,
    }
}

#[test]
fn directories_come_first_then_names() {
    let entries = vec![
        entry("zeta.txt", EntryKind::File),
        entry("beta", EntryKind::Dir),
        entry("alpha.txt", EntryKind::File),
        entry("link", EntryKind::Symlink),
        entry("Alpha", EntryKind::Dir),
    ];
    let names: Vec<String> = sorted_for_table(&entries).into_iter().map(|e| e.name).collect();
    assert_eq!(names, vec!["Alpha", "beta", "alpha.txt", "link", "zeta.txt"]);
    assert_eq!(table_order(&entries), vec![4, 1, 2, 3, 0]);
}

#[test]
fn equal_keys_keep_listing_order() {
    let entries = vec![
        entry("same", EntryKind::Symlink),
        entry("same", EntryKind::File),
        entry("a", EntryKind::File),
    ];
    assert_eq!(table_order(&entries), vec![2, 0, 1]);
}

#[test]
fn table_order_matches_std_stable_sort() {
    let names = ["b", "a", "ä", "Z", "a1", "", "a", "ß", "b"];
    let kinds = [EntryKind::File, EntryKind::Dir, EntryKind::Symlink];
    let mut entries = Vec::new();
    for (i, n) in names.iter().enumerate() {
        entries.push(entry(n, kinds[i % 3]));
    }
    let mut expected: Vec<usize> = (0..entries.len()).collect();
    expected.sort_by(|&a, &b| {
        let (x, y) = (&entries[a], &entries[b]);
        match (x.kind == EntryKind::Dir, y.kind == EntryKind::Dir) {
            (true, false) => std::cmp::Ordering::Less,
            (false, true) => std::cmp::Ordering::Greater,
            _ => x.name.cmp(&y.name),
        }
    });
    assert_eq!(table_order(&entries), expected);
}

#[test]
fn empty_listing_has_empty_order() {
    assert!(table_order(&Vec::new()).is_empty());
}

#[test]
fn name_less_is_code_point_order() {
    assert!(name_less("a", "b"));
    assert!(name_less("B", "a"));
    assert!(name_less("", "a"));
    assert!(name_less("ab", "abc"));
    assert!(!name_less("abc", "ab"));
    assert!(!name_less("a", "a"));
    assert!(name_less("z", "ä"));
}

#[test]
fn parent_entry_points_to_parent() {
    let e = make_parent_entry("/home/user");
    assert_eq!(e.name, "..");
    assert_eq!(e.path, "/home");
    assert_eq!(e.kind, EntryKind::Dir);
    assert_eq!(e.size, None);
    assert_eq!(make_parent_entry("/").path, "/");
}
