use dualpane::connect::submit_connection;
use dualpane::domain::{status_symbol, ConnectionStatus, EntryKind, FileEntry};
use dualpane::panes::{finish_connect, finish_remote_list, trigger_list};
use dualpane::paths::join_path;
use dualpane::state::AppState;
use dualpane::toolbar::{download_button_enabled, upload_button_enabled};

fn entry(name: &str) -> FileEntry {
    FileEntry {
        name: name.to_string(),
        path: format!("/{}", name),
        kind: EntryKind::File,
        size: Some(1),
        modified: Some(0),
        permissions: Some(0o644),
    }
}

#[test]
fn connect_success_opens_an_active_tab() {
    let mut s = AppState::new("/".to_string());
    s.connect_host = "h".to_string();
    s.show_connect_dialog = true;
    let p = submit_connection(&mut s);
    let id = p.id.clone();
    finish_connect(&mut s, Ok((p, vec![entry("a")])));
    assert_eq!(s.tabs.len(), 1);
    assert_eq!(s.active_tab, 0);
    assert_eq!(s.tabs[0].id, id);
    assert_eq!(s.tabs[0].label, "h");
    assert_eq!(s.tabs[0].remote_path, "/");
    assert_eq!(s.tabs[0].remote_entries.len(), 1);
    assert!(matches!(s.tabs[0].status, ConnectionStatus::Connected));
    assert!(!s.connect_loading);
    assert!(!s.show_connect_dialog);
}

#[test]
fn connect_failure_shows_error() {
    let mut s = AppState::new("/".to_string());
    s.show_connect_dialog = true;
    submit_connection(&mut s);
    finish_connect(&mut s, Err("refused".to_string()));
    assert!(s.tabs.is_empty());
    assert_eq!(s.connect_error, "refused");
    assert!(!s.connect_loading);
    assert!(s.show_connect_dialog);
}

#[test]
fn remote_list_results_land_in_their_tab() {
    let mut s = AppState::new("/".to_string());
    let p = submit_connection(&mut s);
    finish_connect(&mut s, Ok((p, Vec::new())));
    assert!(trigger_list(&mut s, 0).is_some());
    assert!(s.tabs[0].loading);
    finish_remote_list(&mut s, 0, Ok(vec![entry("x"), entry("y")]));
    assert!(!s.tabs[0].loading);
    assert_eq!(s.tabs[0].remote_entries.len(), 2);
    trigger_list(&mut s, 0);
    finish_remote_list(&mut s, 0, Err("broken pipe".to_string()));
    assert!(!s.tabs[0].loading);
    assert_eq!(s.status_message, "broken pipe");
    assert_eq!(s.tabs[0].remote_entries.len(), 2);
    finish_remote_list(&mut s, 5, Ok(Vec::new()));
    assert_eq!(s.tabs.len(), 1);
}

#[test]
fn status_symbols() {
    assert_eq!(status_symbol(&ConnectionStatus::Connected), "\u{25CF}");
    assert_eq!(status_symbol(&ConnectionStatus::Disconnected), "\u{25CB}");
    assert_eq!(status_symbol(&ConnectionStatus::Connecting), "\u{25D0}");
    assert_eq!(status_symbol(&ConnectionStatus::Error("e".to_string())), "\u{2716}");
}

#[test]
fn button_states() {
    let mut s = AppState::new("/".to_string());
    assert!(!upload_button_enabled(&s));
    assert!(!download_button_enabled(&s));
    let p = submit_connection(&mut s);
    finish_connect(&mut s, Ok((p, Vec::new())));
    assert!(!upload_button_enabled(&s));
    s.local_selected = Some("f".to_string());
    assert!(upload_button_enabled(&s));
    assert!(!download_button_enabled(&s));
    s.tabs[0].remote_selected = Some("g".to_string());
    assert!(download_button_enabled(&s));
    s.tabs[0].status = ConnectionStatus::Disconnected;
    assert!(!upload_button_enabled(&s));
    assert!(!download_button_enabled(&s));
}

#[test]
fn join_ignores_trailing_slashes() {
    assert_eq!(join_path("/a//", "f"), join_path("/a", "f"));
    assert_eq!(join_path("/a/", "f"), "/a/f");
}
