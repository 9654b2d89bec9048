//! The toolbar's transfer buttons.
use vstd::prelude::*;
use crate::domain::{EntryKind, TransferKind, TransferTask};
use crate::panes::{is_new_task, status_set};
use crate::paths::{join_path, join_path_of};
use crate::state::{find_named, first_named, tab_remote_selected, AppState};

verus! {

broadcast use vstd::string::group_string_axioms;

/// A size, or 0 when unknown.
pub open spec fn size_or_zero(size: Option<u64>) -> u64 {
    match size {
        Some(n) => n,
        None => 0,
    }
}

/// The upload button is enabled: the active tab exists and is connected,
/// and a local entry is selected.
pub open spec fn upload_enabled(s: AppState) -> bool {
    &&& s.active_tab < s.tabs@.len()
    &&& s.tabs@[s.active_tab as int].status is Connected
    &&& s.local_selected is Some
}

/// The download button is enabled: the active tab exists, is connected
/// and has a remote entry selected.
pub open spec fn download_enabled(s: AppState) -> bool {
    &&& s.active_tab < s.tabs@.len()
    &&& s.tabs@[s.active_tab as int].status is Connected
    &&& s.tabs@[s.active_tab as int].remote_selected is Some
}

/// Whether the upload button is enabled.
pub fn upload_button_enabled(state: &AppState) -> (r: bool)
    ensures
        r == upload_enabled(*state),
{
    state.active_connected() && state.local_selected.is_some()
}

/// Whether the download button is enabled.
pub fn download_button_enabled(state: &AppState) -> (r: bool)
    ensures
        r == download_enabled(*state),
{
    match state.active_tab_ref() {
        Some(t) => t.status.is_connected() && t.remote_selected.is_some(),
        None => false,
    }
}

/// A click on the upload button. The selected local entry (the first one
/// of that name) is uploaded into the active tab's directory if it is a
/// file and the active tab's connection is registered
/// (`connection_registered`, as the caller found it for that tab's id).
/// Returns the task to queue; reports on the status line.
pub fn toolbar_upload(state: &mut AppState, connection_registered: bool) -> (r: Option<TransferTask>)
    ensures
        !upload_enabled(*old(state)) ==> r is None && *final(state) == *old(state),
        upload_enabled(*old(state)) ==> ({
            let s = *old(state);
            let t = s.tabs@[s.active_tab as int];
            let sel = s.local_selected->0;
            match first_named(s.local_entries@, sel@) {
                None => r is None && *final(state) == *old(state),
                Some(i) => {
                    let e = s.local_entries@[i];
                    if e.kind != EntryKind::File {
                        r is None && status_set(s, *final(state), "Cannot upload directory"@)
                    } else if connection_registered {
                        &&& r matches Some(task) && is_new_task(
                            task,
                            TransferKind::Upload,
                            t.id@,
                            e.path@,
                            join_path_of(t.remote_path@, e.name@),
                            e.name@,
                            size_or_zero(e.size),
                        )
                        &&& status_set(s, *final(state), "Upload queued"@)
                    } else {
                        r is None && status_set(s, *final(state), "No connection"@)
                    }
                },
            }
        }),
{
    if !state.active_connected() {
        return None;
    }
    let sel = match &state.local_selected {
        Some(sel) => sel,
        None => {
            return None;
        },
    };
    let i = match find_named(&state.local_entries, sel.as_str()) {
        Some(i) => i,
        None => {
            return None;
        },
    };
    let entry = &state.local_entries[i];
    if entry.kind != EntryKind::File {
        state.status_message = "Cannot upload directory".to_string();
        return None;
    }
    let tab = &state.tabs[state.active_tab];
    let remote = join_path(tab.remote_path.as_str(), entry.name.as_str());
    let size = match entry.size {
        Some(n) => n,
        None => 0,
    };
    let task = TransferTask::new(
        TransferKind::Upload,
        tab.id.clone(),
        entry.path.clone(),
        remote,
        entry.name.clone(),
        size,
    );
    if connection_registered {
        state.status_message = "Upload queued".to_string();
        Some(task)
    } else {
        state.status_message = "No connection".to_string();
        None
    }
}

/// A click on the download button. The selected remote entry of the active
/// tab is downloaded into the current local folder, with the size its first
/// listing entry of that name gives (0 when unknown), if the tab's connection
/// is registered (`connection_registered`, as the caller found it for that
/// tab's id). Returns the task to queue; reports on the status line.
pub fn toolbar_download(state: &mut AppState, connection_registered: bool) -> (r: Option<TransferTask>)
    ensures
        !download_enabled(*old(state)) ==> r is None && *final(state) == *old(state),
        download_enabled(*old(state)) ==> ({
            let s = *old(state);
            let t = s.tabs@[s.active_tab as int];
            let sel = t.remote_selected->0;
            let size = match first_named(t.remote_entries@, sel@) {
                Some(i) => size_or_zero(t.remote_entries@[i].size),
                None => 0,
            };
            if connection_registered {
                &&& r matches Some(task) && is_new_task(
                    task,
                    TransferKind::Download,
                    t.id@,
                    join_path_of(s.local_path@, sel@),
                    join_path_of(t.remote_path@, sel@),
                    sel@,
                    size,
                )
                &&& status_set(s, *final(state), "Download queued"@)
            } else {
                r is None && status_set(s, *final(state), "No connection"@)
            }
        }),
{
    if !state.active_connected() {
        return None;
    }
    let sel = match tab_remote_selected(state) {
        Some(sel) => sel,
        None => {
            return None;
        },
    };
    let tab = &state.tabs[state.active_tab];
    let remote = join_path(tab.remote_path.as_str(), sel.as_str());
    let local = join_path(state.local_path.as_str(), sel.as_str());
    let size = match find_named(&tab.remote_entries, sel.as_str()) {
        Some(i) => match tab.remote_entries[i].size {
            Some(n) => n,
            None => 0,
        },
        None => 0,
    };
    let task = TransferTask::new(TransferKind::Download, tab.id.clone(), local, remote, sel, size);
    if connection_registered {
        state.status_message = "Download queued".to_string();
        Some(task)
    } else {
        state.status_message = "No connection".to_string();
        None
    }
}

} // verus!
