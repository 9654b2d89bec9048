use dualpane::domain::{EntryKind, FileEntry};
use dualpane::drag::{make_local_payload, make_remote_payload, DragPayload};

fn entry(name: &str, path: &str, kind: EntryKind) -> FileEntry {
    FileEntry {
        name: name.to_string(),
        path: path.to_string(),
        kind,
        size: Some(10),
        modified: None,
        permissions: None,
    }
}

#[test]
fn local_payload_carries_path_and_name() {
    let p = make_local_payload(&entry("a.txt", "/home/a.txt", EntryKind::File)).unwrap();
    assert!(p.is_from_local());
    assert!(!p.is_from_remote());
    assert_eq!(p.file_name(), "a.txt");
    match p {
        DragPayload::LocalFile(path, name) => {
            assert_eq!(path, "/home/a.txt");
            assert_eq!(name, "a.txt");
        }
        _ => panic!("expected a local payload"),
    }
}

#[test]
fn remote_payload_carries_connection() {
    let p = make_remote_payload(&entry("b", "/srv/b", EntryKind::Dir), "conn-1").unwrap();
    assert!(p.is_from_remote());
    assert!(!p.is_from_local());
    assert_eq!(p.file_name(), "b");
    match p {
        DragPayload::RemoteFile(path, name, conn) => {
            assert_eq!(path, "/srv/b");
            assert_eq!(name, "b");
            assert_eq!(conn, "conn-1");
        }
        _ => panic!("expected a remote payload"),
    }
}

#[test]
fn parent_entry_cannot_be_dragged() {
    assert!(make_local_payload(&entry("..", "/", EntryKind::Dir)).is_none());
    assert!(make_remote_payload(&entry("..", "/", EntryKind::Dir), "c").is_none());
    assert!(make_local_payload(&entry("...", "/x", EntryKind::Dir)).is_some());
}
