use dualpane::domain::{ConnectionStatus, EntryKind, FileEntry, TaskState, TransferKind};
use dualpane::drag::DragPayload;
use dualpane::panes::{
    drop_on_local, drop_on_remote, edit_local_path, edit_remote_path, local_drag_payload,
    open_local_entry, open_remote_entry, refresh_local, remote_drag_payload, trigger_list,
};
use dualpane::state::{tab_remote_selected, AppState, Tab};

fn entry(name: &str, path: &str, kind: EntryKind, size: Option<u64>) -> FileEntry {
    FileEntry {
        name: name.to_string(),
        path: path.to_string(),
        kind,
        size,
        modified: None,
        permissions: None,
    }
}

fn tab(id: &str, status: ConnectionStatus, path: &str) -> Tab {
    Tab {
        id: id.to_string(),
        label: id.to_string(),
        status,
        remote_path: path.to_string(),
        remote_entries: vec![
            entry("docs", "/srv/docs", EntryKind::Dir, None),
            entry("a.txt", "/srv/a.txt", EntryKind::File, Some(42)),
        ],
        remote_selected: None,
        loading: false,
    }
}

#[test]
fn refresh_local_adds_parent_entry() {
    let mut s = AppState::new("/home/user".to_string());
    refresh_local(&mut s, Ok(vec![entry("f", "/home/user/f", EntryKind::File, Some(1))]));
    assert_eq!(s.local_entries.len(), 2);
    assert_eq!(s.local_entries[0].name, "..");
    assert_eq!(s.local_entries[0].path, "/home");
    assert_eq!(s.local_entries[1].name, "f");
}

#[test]
fn refresh_local_at_root_has_no_parent_entry() {
    let mut s = AppState::new("/".to_string());
    refresh_local(&mut s, Ok(vec![entry("etc", "/etc", EntryKind::Dir, None)]));
    assert_eq!(s.local_entries.len(), 1);
    assert_eq!(s.local_entries[0].name, "etc");
}

#[test]
fn refresh_local_error_keeps_entries() {
    let mut s = AppState::new("/nowhere".to_string());
    refresh_local(&mut s, Ok(vec![entry("x", "/nowhere/x", EntryKind::File, None)]));
    refresh_local(&mut s, Err("permission denied".to_string()));
    assert_eq!(s.status_message, "Local list error: permission denied");
    assert_eq!(s.local_entries.len(), 2);
}

#[test]
fn open_local_entry_navigates() {
    let mut s = AppState::new("/home/user".to_string());
    s.local_entries = vec![
        entry("..", "/home", EntryKind::Dir, None),
        entry("music", "/home/user/music", EntryKind::Dir, None),
        entry("a.txt", "/home/user/a.txt", EntryKind::File, None),
    ];
    open_local_entry(&mut s, "music");
    assert_eq!(s.local_path, "/home/user/music");
    open_local_entry(&mut s, "a.txt");
    assert_eq!(s.local_path, "/home/user/music");
    open_local_entry(&mut s, "missing");
    assert_eq!(s.local_path, "/home/user/music");
    open_local_entry(&mut s, "..");
    assert_eq!(s.local_path, "/home/user");
}

#[test]
fn edit_local_path_reports_change() {
    let mut s = AppState::new("/a".to_string());
    assert!(!edit_local_path(&mut s, "/a".to_string()));
    assert!(edit_local_path(&mut s, "/b".to_string()));
    assert_eq!(s.local_path, "/b");
}

#[test]
fn local_drag_needs_connected_tab() {
    let mut s = AppState::new("/".to_string());
    let e = entry("f", "/f", EntryKind::File, None);
    assert!(local_drag_payload(&s, &e).is_none());
    s.tabs.push(tab("c1", ConnectionStatus::Connected, "/srv"));
    assert!(local_drag_payload(&s, &e).is_some());
    s.active_tab = 3;
    assert!(local_drag_payload(&s, &e).is_none());
}

#[test]
fn drop_remote_file_on_local_pane_downloads() {
    let mut s = AppState::new("/home/user/".to_string());
    let p = DragPayload::RemoteFile("/srv/a.txt".to_string(), "a.txt".to_string(), "c1".to_string());
    let t = drop_on_local(&mut s, &p, true).unwrap();
    assert_eq!(t.kind, TransferKind::Download);
    assert_eq!(t.connection_id, "c1");
    assert_eq!(t.local_path, "/home/user/a.txt");
    assert_eq!(t.remote_path, "/srv/a.txt");
    assert_eq!(t.file_name, "a.txt");
    assert_eq!(t.total_bytes, 0);
    assert!(matches!(t.state, TaskState::Queued));
    assert_eq!(s.status_message, "Download queued via drag & drop");
}

#[test]
fn drop_on_local_refusals() {
    let mut s = AppState::new("/home".to_string());
    let p = DragPayload::RemoteFile("/srv/a".to_string(), "a".to_string(), "gone".to_string());
    assert!(drop_on_local(&mut s, &p, false).is_none());
    assert_eq!(s.status_message, "Connection no longer active");
    let p = DragPayload::LocalFile("/home/a".to_string(), "a".to_string());
    assert!(drop_on_local(&mut s, &p, true).is_none());
    assert_eq!(s.status_message, "Cannot drop local file onto local pane");
}

#[test]
fn drop_local_file_on_remote_pane_uploads() {
    let mut s = AppState::new("/home".to_string());
    s.tabs.push(tab("c1", ConnectionStatus::Connected, "/srv/"));
    let p = DragPayload::LocalFile("/home/a.txt".to_string(), "a.txt".to_string());
    let t = drop_on_remote(&mut s, 0, &p).unwrap();
    assert_eq!(t.kind, TransferKind::Upload);
    assert_eq!(t.connection_id, "c1");
    assert_eq!(t.local_path, "/home/a.txt");
    assert_eq!(t.remote_path, "/srv/a.txt");
    assert_eq!(s.status_message, "Upload queued via drag & drop");
}

#[test]
fn drop_on_remote_refusals() {
    let mut s = AppState::new("/home".to_string());
    s.tabs.push(tab("c1", ConnectionStatus::Disconnected, "/srv"));
    s.tabs.push(tab("c2", ConnectionStatus::Connected, "/srv"));
    let p = DragPayload::LocalFile("/home/a".to_string(), "a".to_string());
    assert!(drop_on_remote(&mut s, 0, &p).is_none());
    assert_eq!(s.status_message, "No active connection");
    let p = DragPayload::RemoteFile("/srv/a".to_string(), "a".to_string(), "c2".to_string());
    assert!(drop_on_remote(&mut s, 1, &p).is_none());
    assert_eq!(s.status_message, "Cannot drop remote file onto remote pane");
}

#[test]
fn remote_drag_payload_needs_connection() {
    let mut s = AppState::new("/".to_string());
    s.tabs.push(tab("c1", ConnectionStatus::Error("x".to_string()), "/srv"));
    s.tabs.push(tab("c2", ConnectionStatus::Connected, "/srv"));
    let e = entry("a", "/srv/a", EntryKind::File, None);
    assert!(remote_drag_payload(&s, 0, &e).is_none());
    match remote_drag_payload(&s, 1, &e) {
        Some(DragPayload::RemoteFile(_, _, conn)) => assert_eq!(conn, "c2"),
        _ => panic!("expected a remote payload"),
    }
}

#[test]
fn trigger_list_marks_loading() {
    let mut s = AppState::new("/".to_string());
    s.tabs.push(tab("c1", ConnectionStatus::Connected, "/srv"));
    s.tabs.push(tab("c2", ConnectionStatus::Connecting, "/srv"));
    let q = trigger_list(&mut s, 0).unwrap();
    assert_eq!(q.tab_idx, 0);
    assert_eq!(q.connection_id, "c1");
    assert_eq!(q.path, "/srv");
    assert!(s.tabs[0].loading);
    assert!(trigger_list(&mut s, 1).is_none());
    assert_eq!(s.status_message, "Not connected");
    assert!(!s.tabs[1].loading);
}

#[test]
fn open_remote_entry_navigates() {
    let mut s = AppState::new("/".to_string());
    s.tabs.push(tab("c1", ConnectionStatus::Connected, "/srv"));
    assert!(open_remote_entry(&mut s, 0, "docs"));
    assert_eq!(s.tabs[0].remote_path, "/srv/docs");
    assert!(!open_remote_entry(&mut s, 0, "a.txt"));
    assert_eq!(s.tabs[0].remote_path, "/srv/docs");
    s.tabs[0].loading = true;
    assert!(!open_remote_entry(&mut s, 0, ".."));
    assert_eq!(s.tabs[0].remote_path, "/srv");
    s.tabs[0].loading = false;
    assert!(open_remote_entry(&mut s, 0, ".."));
    assert_eq!(s.tabs[0].remote_path, "/");
}

#[test]
fn edit_remote_path_reports_change() {
    let mut s = AppState::new("/".to_string());
    s.tabs.push(tab("c1", ConnectionStatus::Connected, "/srv"));
    assert!(!edit_remote_path(&mut s, 0, "/srv".to_string()));
    assert!(edit_remote_path(&mut s, 0, "/tmp".to_string()));
    assert_eq!(s.tabs[0].remote_path, "/tmp");
}

#[test]
fn remote_selection_of_clamped_tab() {
    let mut s = AppState::new("/".to_string());
    assert_eq!(tab_remote_selected(&s), None);
    s.tabs.push(tab("c1", ConnectionStatus::Connected, "/srv"));
    s.tabs.push(tab("c2", ConnectionStatus::Connected, "/srv"));
    s.tabs[1].remote_selected = Some("a.txt".to_string());
    s.active_tab = 9;
    assert_eq!(tab_remote_selected(&s), Some("a.txt".to_string()));
    s.active_tab = 0;
    assert_eq!(tab_remote_selected(&s), None);
}
