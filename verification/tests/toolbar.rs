use dualpane::domain::{ConnectionStatus, EntryKind, FileEntry, TransferKind};
use dualpane::state::{AppState, Tab};
use dualpane::toolbar::{toolbar_download, toolbar_upload};

fn entry(name: &str, path: &str, kind: EntryKind, size: Option<u64>) -> FileEntry {
    FileEntry {
        name: name.to_string(),
        path: path.to_string(),
        kind,
        size,
        modified: None,
        permissions: None,
    }
}

fn state() -> AppState {
    let mut s = AppState::new("/home/me".to_string());
    s.local_entries = vec![
        entry("pics", "/home/me/pics", EntryKind::Dir, None),
        entry("notes.txt", "/home/me/notes.txt", EntryKind::File, Some(7)),
    ];
    s.tabs.push(Tab {
        id: "c1".to_string(),
        label: "server".to_string(),
        status: ConnectionStatus::Connected,
        remote_path: "/srv/".to_string(),
        remote_entries: vec![entry("big.iso", "/srv/big.iso", EntryKind::File, Some(4096))],
        remote_selected: None,
        loading: false,
    });
    s
}

#[test]
fn upload_selected_file() {
    let mut s = state();
    s.local_selected = Some("notes.txt".to_string());
    let t = toolbar_upload(&mut s, true).unwrap();
    assert_eq!(t.kind, TransferKind::Upload);
    assert_eq!(t.connection_id, "c1");
    assert_eq!(t.local_path, "/home/me/notes.txt");
    assert_eq!(t.remote_path, "/srv/notes.txt");
    assert_eq!(t.total_bytes, 7);
    assert_eq!(s.status_message, "Upload queued");
}

#[test]
fn upload_refusals() {
    let mut s = state();
    assert!(toolbar_upload(&mut s, true).is_none());
    assert_eq!(s.status_message, "");
    s.local_selected = Some("pics".to_string());
    assert!(toolbar_upload(&mut s, true).is_none());
    assert_eq!(s.status_message, "Cannot upload directory");
    s.local_selected = Some("notes.txt".to_string());
    assert!(toolbar_upload(&mut s, false).is_none());
    assert_eq!(s.status_message, "No connection");
    s.status_message = String::new();
    s.local_selected = Some("missing".to_string());
    assert!(toolbar_upload(&mut s, true).is_none());
    assert_eq!(s.status_message, "");
    s.local_selected = Some("notes.txt".to_string());
    s.tabs[0].status = ConnectionStatus::Disconnected;
    assert!(toolbar_upload(&mut s, true).is_none());
    assert_eq!(s.status_message, "");
}

#[test]
fn download_selected_file() {
    let mut s = state();
    s.tabs[0].remote_selected = Some("big.iso".to_string());
    let t = toolbar_download(&mut s, true).unwrap();
    assert_eq!(t.kind, TransferKind::Download);
    assert_eq!(t.local_path, "/home/me/big.iso");
    assert_eq!(t.remote_path, "/srv/big.iso");
    assert_eq!(t.file_name, "big.iso");
    assert_eq!(t.total_bytes, 4096);
    assert_eq!(s.status_message, "Download queued");
}

#[test]
fn download_unknown_size_is_zero() {
    let mut s = state();
    s.tabs[0].remote_selected = Some("gone.bin".to_string());
    let t = toolbar_download(&mut s, true).unwrap();
    assert_eq!(t.total_bytes, 0);
}

#[test]
fn download_refusals() {
    let mut s = state();
    assert!(toolbar_download(&mut s, true).is_none());
    s.tabs[0].remote_selected = Some("big.iso".to_string());
    assert!(toolbar_download(&mut s, false).is_none());
    assert_eq!(s.status_message, "No connection");
}
