//! What the local pane, the remote panes and the toolbar do on each user
//! action: navigation, drag-and-drop and the transfer buttons. Listing a
//! directory and talking to a server are left to the caller, which hands
//! the results back.
use vstd::prelude::*;
use crate::domain::{ConnectionParams, ConnectionStatus, EntryKind, FileEntry, TransferKind, TransferTask};
use crate::drag::{make_local_payload, make_remote_payload, parent_entry_name, DragPayload};
use crate::ids::is_v4_text;
use crate::listing::{make_parent_entry, parent_entry_of};
use crate::paths::{join_path, join_path_of, local_parent_of, parent_path, remote_parent, remote_parent_of};
use crate::state::{find_named, first_named, AppState, Tab};
use crate::text::{push_str, text_eq};

verus! {

broadcast use vstd::string::group_string_axioms;

/// Replaces element `i` of `v` by `x` and returns the element it held.
pub fn replace_at<T>(v: &mut Vec<T>, i: usize, x: T) -> (r: T)
    requires
        i < old(v)@.len(),
    ensures
        r == old(v)@[i as int],
        final(v)@ == old(v)@.update(i as int, x),
{
    let r = v.remove(i);
    v.insert(i, x);
    assert(v@ =~= old(v)@.update(i as int, x));
    r
}

/// `t` is a freshly queued task with these fields.
pub open spec fn is_new_task(
    t: TransferTask,
    kind: TransferKind,
    connection_id: Seq<char>,
    local_path: Seq<char>,
    remote_path: Seq<char>,
    file_name: Seq<char>,
    total_bytes: u64,
) -> bool {
    &&& is_v4_text(t.id@)
    &&& t.kind == kind
    &&& t.connection_id@ == connection_id
    &&& t.local_path@ == local_path
    &&& t.remote_path@ == remote_path
    &&& t.file_name@ == file_name
    &&& t.total_bytes == total_bytes
    &&& t.transferred_bytes == 0
    &&& t.state is Queued
    &&& t.speed is None
    &&& t.eta_secs is None
}

/// `b` is `a` with only its status message changed, to `msg`.
pub open spec fn status_set(a: AppState, b: AppState, msg: Seq<char>) -> bool {
    &&& b.status_message@ == msg
    &&& b == (AppState { status_message: b.status_message, ..a })
}

// ---------------------------------------------------------------- local pane

/// The local entries after a listing of the current folder came back:
/// a ".." entry first unless the folder is the root.
pub open spec fn local_listing_ok(path: Seq<char>, list: Seq<FileEntry>, entries: Seq<FileEntry>) -> bool {
    if path == seq!['/'] {
        entries == list
    } else {
        &&& entries.len() == list.len() + 1
        &&& parent_entry_of(path, entries[0])
        &&& entries.drop_first() == list
    }
}

/// A listing of any local folder other than the root "/" is shown under a
/// ".." row that leads to the folder's parent, followed by every listed
/// entry in order; at the root the listing is shown as it came.
pub proof fn lemma_local_listing_parent_row(path: Seq<char>, list: Seq<FileEntry>, entries: Seq<FileEntry>)
    requires
        local_listing_ok(path, list, entries),
    ensures
        path != seq!['/'] ==> {
            &&& entries.len() == list.len() + 1
            &&& entries[0].name@ == seq!['.', '.']
            &&& entries[0].kind == EntryKind::Dir
            &&& entries[0].path@ == local_parent_of(path)
            &&& forall|i: int| 0 <= i < list.len() ==> entries[i + 1] == list[i]
        },
        path == seq!['/'] ==> entries == list,
{
    if path != seq!['/'] {
        assert forall|i: int| 0 <= i < list.len() implies entries[i + 1] == list[i] by {
            assert(entries.drop_first()[i] == entries[i + 1]);
        }
    }
}

/// Takes in the listing of the current local folder (or the error that
/// listing it gave): on success the entries are replaced, on failure the
/// status line reports the error and the entries stay.
pub fn refresh_local(state: &mut AppState, listing: Result<Vec<FileEntry>, String>)
    ensures
        match listing {
            Ok(list) => {
                &&& local_listing_ok(old(state).local_path@, list@, final(state).local_entries@)
                &&& old(state).local_path@ != seq!['/'] ==> final(state).local_entries@.len() == list@.len() + 1
                    && final(state).local_entries@[0].name@ == seq!['.', '.']
                &&& *final(state) == (AppState { local_entries: final(state).local_entries, ..*old(state) })
            },
            Err(e) => status_set(*old(state), *final(state), "Local list error: "@ + e@),
        },
{
    proof {
        reveal_strlit("/");
        assert("/"@ =~= seq!['/']);
    }
    match listing {
        Ok(list) => {
            let mut entries: Vec<FileEntry> = Vec::new();
            let at_root = text_eq(state.local_path.as_str(), "/");
            if !at_root {
                entries.push(make_parent_entry(state.local_path.as_str()));
            }
            let ghost head = entries@;
            let ghost given = list@;
            let mut list = list;
            entries.append(&mut list);
            if !at_root {
                assert(entries@.drop_first() =~= head.drop_first() + given) by {
                    assert(head.len() == 1);
                }
            } else {
                assert(entries@ =~= given);
            }
            state.local_entries = entries;
            proof {
                lemma_local_listing_parent_row(old(state).local_path@, given, state.local_entries@);
            }
        },
        Err(e) => {
            let mut m = "Local list error: ".to_string();
            push_str(&mut m, e.as_str());
            state.status_message = m;
        },
    }
}

/// Where double-clicking the local entry `name` leads: the parent for "..",
/// the entry's path for the first directory of that name, else nowhere new.
pub open spec fn local_target(s: AppState, name: Seq<char>) -> Seq<char> {
    if name == parent_entry_name() {
        local_parent_of(s.local_path@)
    } else {
        match first_named(s.local_entries@, name) {
            Some(i) => if s.local_entries@[i].kind == EntryKind::Dir {
                s.local_entries@[i].path@
            } else {
                s.local_path@
            },
            None => s.local_path@,
        }
    }
}

/// Opens the local entry `name` (a double-click); the caller lists the new
/// folder afterwards and hands the result to `refresh_local`.
pub fn open_local_entry(state: &mut AppState, name: &str)
    ensures
        final(state).local_path@ == local_target(*old(state), name@),
        *final(state) == (AppState { local_path: final(state).local_path, ..*old(state) }),
{
    proof {
        reveal_strlit("..");
        assert(".."@ =~= parent_entry_name());
    }
    if text_eq(name, "..") {
        state.local_path = parent_path(state.local_path.as_str());
    } else {
        match find_named(&state.local_entries, name) {
            Some(i) => {
                if state.local_entries[i].kind == EntryKind::Dir {
                    state.local_path = state.local_entries[i].path.clone();
                }
            },
            None => {},
        }
    }
}

/// Takes an edit of the local path field; returns whether the path changed
/// (and the folder must be listed again).
pub fn edit_local_path(state: &mut AppState, path: String) -> (changed: bool)
    ensures
        changed == (path@ != old(state).local_path@),
        changed ==> *final(state) == (AppState { local_path: path, ..*old(state) }),
        !changed ==> *final(state) == *old(state),
{
    if text_eq(path.as_str(), state.local_path.as_str()) {
        false
    } else {
        state.local_path = path;
        true
    }
}

/// The payload for dragging a local entry: only while the active tab is
/// connected.
pub fn local_drag_payload(state: &AppState, entry: &FileEntry) -> (r: Option<DragPayload>)
    ensures
        r == if state.active_tab < state.tabs@.len() && state.tabs@[state.active_tab as int].status is Connected {
            if entry.name@ == parent_entry_name() {
                None
            } else {
                Some(DragPayload::LocalFile(entry.path, entry.name))
            }
        } else {
            None
        },
{
    if state.active_connected() {
        make_local_payload(entry)
    } else {
        None
    }
}

/// A file dropped on the local pane. A remote file is downloaded into the
/// current folder if its connection is still registered
/// (`connection_registered`, as the caller found it); a local file is
/// refused. Returns the task to queue, and reports on the status line.
pub fn drop_on_local(state: &mut AppState, payload: &DragPayload, connection_registered: bool) -> (r:
    Option<TransferTask>)
    ensures
        match payload {
            DragPayload::RemoteFile(remote_path, file_name, conn_id) => if connection_registered {
                &&& r matches Some(t) && is_new_task(
                    t,
                    TransferKind::Download,
                    conn_id@,
                    join_path_of(old(state).local_path@, file_name@),
                    remote_path@,
                    file_name@,
                    0,
                )
                &&& status_set(*old(state), *final(state), "Download queued via drag & drop"@)
            } else {
                r is None && status_set(*old(state), *final(state), "Connection no longer active"@)
            },
            DragPayload::LocalFile(_, _) => r is None && status_set(
                *old(state),
                *final(state),
                "Cannot drop local file onto local pane"@,
            ),
        },
{
    match payload {
        DragPayload::RemoteFile(remote_path, file_name, conn_id) => {
            if !connection_registered {
                state.status_message = "Connection no longer active".to_string();
                return None;
            }
            let local = join_path(state.local_path.as_str(), file_name.as_str());
            let task = TransferTask::new(
                TransferKind::Download,
                conn_id.clone(),
                local,
                remote_path.clone(),
                file_name.clone(),
                0,
            );
            state.status_message = "Download queued via drag & drop".to_string();
            Some(task)
        },
        DragPayload::LocalFile(_, _) => {
            state.status_message = "Cannot drop local file onto local pane".to_string();
            None
        },
    }
}

// --------------------------------------------------------------- remote pane

/// What the caller must list, and for which tab, once `trigger_list` accepted.
pub struct RemoteListRequest {
    pub tab_idx: usize,
    pub connection_id: String,
    pub path: String,
}

/// `b` is `a` with tab `i` replaced by `t`.
pub open spec fn tab_set(a: AppState, b: AppState, i: int, t: Tab) -> bool {
    b == (AppState { tabs: b.tabs, ..a }) && b.tabs@ == a.tabs@.update(i, t)
}

/// Asks for a listing of tab `tab_idx`'s remote directory. Refused, with a
/// status message, unless the tab is connected; otherwise the tab is marked
/// loading and the request returned for the caller to carry out.
pub fn trigger_list(state: &mut AppState, tab_idx: usize) -> (r: Option<RemoteListRequest>)
    requires
        tab_idx < old(state).tabs@.len(),
    ensures
        ({
            let t = old(state).tabs@[tab_idx as int];
            if t.status is Connected {
                &&& r matches Some(q) && q.tab_idx == tab_idx && q.connection_id == t.id && q.path
                    == t.remote_path
                &&& tab_set(*old(state), *final(state), tab_idx as int, Tab { loading: true, ..t })
            } else {
                r is None && status_set(*old(state), *final(state), "Not connected"@)
            }
        }),
{
    if !state.tabs[tab_idx].status.is_connected() {
        state.status_message = "Not connected".to_string();
        return None;
    }
    let connection_id = state.tabs[tab_idx].id.clone();
    let path = state.tabs[tab_idx].remote_path.clone();
    let mut tab = replace_at(&mut state.tabs, tab_idx, placeholder_tab());
    tab.loading = true;
    let ghost new_tab = tab;
    replace_at(&mut state.tabs, tab_idx, tab);
    assert(state.tabs@ =~= old(state).tabs@.update(tab_idx as int, new_tab));
    Some(RemoteListRequest { tab_idx, connection_id, path })
}

fn placeholder_tab() -> (r: Tab)
    ensures
        r.id@.len() == 0,
        r.label@.len() == 0,
        r.status is Disconnected,
        r.remote_path@.len() == 0,
        r.remote_entries@.len() == 0,
        r.remote_selected is None,
        !r.loading,
{
    Tab {
        id: String::new(),
        label: String::new(),
        status: crate::domain::ConnectionStatus::Disconnected,
        remote_path: String::new(),
        remote_entries: Vec::new(),
        remote_selected: None,
        loading: false,
    }
}

/// Where double-clicking the remote entry `name` of tab `t` leads, if it
/// leads to a directory.
pub open spec fn remote_target(t: Tab, name: Seq<char>) -> Option<Seq<char>> {
    if name == parent_entry_name() {
        Some(remote_parent_of(t.remote_path@))
    } else {
        match first_named(t.remote_entries@, name) {
            Some(i) => if t.remote_entries@[i].kind == EntryKind::Dir {
                Some(t.remote_entries@[i].path@)
            } else {
                None
            },
            None => None,
        }
    }
}

/// Double-clicking a remote name other than ".." leads somewhere only when
/// the first entry of that name is a directory, and then to that entry's
/// path; a file, a link or a missing name leads nowhere. ".." leads to the
/// parent of the tab's path.
pub proof fn lemma_remote_target_dirs_only(t: Tab, name: Seq<char>)
    ensures
        name == seq!['.', '.'] ==> remote_target(t, name) == Some(remote_parent_of(t.remote_path@)),
        name != seq!['.', '.'] ==> match first_named(t.remote_entries@, name) {
            Some(i) => if t.remote_entries@[i].kind == EntryKind::Dir {
                remote_target(t, name) == Some(t.remote_entries@[i].path@)
            } else {
                remote_target(t, name) is None
            },
            None => remote_target(t, name) is None,
        },
{
}

/// Opens the remote entry `name` of tab `tab_idx` (a double-click): ".."
/// goes up, a directory goes down, anything else does nothing. Returns
/// whether a listing must be triggered (the tab moved and is not already
/// loading).
pub fn open_remote_entry(state: &mut AppState, tab_idx: usize, name: &str) -> (list: bool)
    requires
        tab_idx < old(state).tabs@.len(),
    ensures
        ({
            let t = old(state).tabs@[tab_idx as int];
            match remote_target(t, name@) {
                Some(p) => {
                    &&& final(state).tabs@[tab_idx as int].remote_path@ == p
                    &&& tab_set(
                        *old(state),
                        *final(state),
                        tab_idx as int,
                        Tab { remote_path: final(state).tabs@[tab_idx as int].remote_path, ..t },
                    )
                    &&& list == !t.loading
                },
                None => *final(state) == *old(state) && !list,
            }
        }),
        ({
            let es = old(state).tabs@[tab_idx as int].remote_entries@;
            (name@ != seq!['.', '.'] && match first_named(es, name@) {
                Some(i) => es[i].kind != EntryKind::Dir,
                None => true,
            }) ==> *final(state) == *old(state) && !list
        }),
{
    proof {
        lemma_remote_target_dirs_only(old(state).tabs@[tab_idx as int], name@);
    }
    proof {
        reveal_strlit("..");
        assert(".."@ =~= parent_entry_name());
    }
    let target = if text_eq(name, "..") {
        Some(remote_parent(state.tabs[tab_idx].remote_path.as_str()))
    } else {
        match find_named(&state.tabs[tab_idx].remote_entries, name) {
            Some(i) => {
                if state.tabs[tab_idx].remote_entries[i].kind == EntryKind::Dir {
                    Some(state.tabs[tab_idx].remote_entries[i].path.clone())
                } else {
                    None
                }
            },
            None => None,
        }
    };
    match target {
        Some(p) => {
            let mut tab = replace_at(&mut state.tabs, tab_idx, placeholder_tab());
            tab.remote_path = p;
            let loading = tab.loading;
            let ghost new_tab = tab;
            replace_at(&mut state.tabs, tab_idx, tab);
            assert(state.tabs@ =~= old(state).tabs@.update(tab_idx as int, new_tab));
            !loading
        },
        None => false,
    }
}

/// Takes an edit of tab `tab_idx`'s path field. Returns whether a listing
/// must be triggered: the path changed and the tab is not already loading.
pub fn edit_remote_path(state: &mut AppState, tab_idx: usize, path: String) -> (list: bool)
    requires
        tab_idx < old(state).tabs@.len(),
    ensures
        ({
            let t = old(state).tabs@[tab_idx as int];
            if path@ != t.remote_path@ {
                tab_set(*old(state), *final(state), tab_idx as int, Tab { remote_path: path, ..t })
                    && list == !t.loading
            } else {
                *final(state) == *old(state) && !list
            }
        }),
{
    if text_eq(path.as_str(), state.tabs[tab_idx].remote_path.as_str()) {
        return false;
    }
    let mut tab = replace_at(&mut state.tabs, tab_idx, placeholder_tab());
    tab.remote_path = path;
    let loading = tab.loading;
    let ghost new_tab = tab;
    replace_at(&mut state.tabs, tab_idx, tab);
    assert(state.tabs@ =~= old(state).tabs@.update(tab_idx as int, new_tab));
    !loading
}

/// The payload for dragging a remote entry of tab `tab_idx`: only while the
/// tab is connected.
pub fn remote_drag_payload(state: &AppState, tab_idx: usize, entry: &FileEntry) -> (r: Option<
    DragPayload,
>)
    requires
        tab_idx < state.tabs@.len(),
    ensures
        !(state.tabs@[tab_idx as int].status is Connected) ==> r is None,
        state.tabs@[tab_idx as int].status is Connected ==> {
            &&& (r is None <==> entry.name@ == parent_entry_name())
            &&& r matches Some(p) ==> (p matches DragPayload::RemoteFile(path, name, conn) && path
                == entry.path && name == entry.name && conn@ == state.tabs@[tab_idx as int].id@)
        },
{
    if state.tabs[tab_idx].status.is_connected() {
        make_remote_payload(entry, state.tabs[tab_idx].id.as_str())
    } else {
        None
    }
}

/// A file dropped on tab `tab_idx`'s pane. A local file is uploaded into
/// the tab's directory if the tab is connected; a remote file is refused.
/// Returns the task to queue, and reports on the status line.
pub fn drop_on_remote(state: &mut AppState, tab_idx: usize, payload: &DragPayload) -> (r: Option<
    TransferTask,
>)
    requires
        tab_idx < old(state).tabs@.len(),
    ensures
        ({
            let t = old(state).tabs@[tab_idx as int];
            match payload {
                DragPayload::LocalFile(local_path, file_name) => if t.status is Connected {
                    &&& r matches Some(task) && is_new_task(
                        task,
                        TransferKind::Upload,
                        t.id@,
                        local_path@,
                        join_path_of(t.remote_path@, file_name@),
                        file_name@,
                        0,
                    )
                    &&& status_set(*old(state), *final(state), "Upload queued via drag & drop"@)
                } else {
                    r is None && status_set(*old(state), *final(state), "No active connection"@)
                },
                DragPayload::RemoteFile(_, _, _) => r is None && status_set(
                    *old(state),
                    *final(state),
                    "Cannot drop remote file onto remote pane"@,
                ),
            }
        }),
{
    match payload {
        DragPayload::LocalFile(local_path, file_name) => {
            if !state.tabs[tab_idx].status.is_connected() {
                state.status_message = "No active connection".to_string();
                return None;
            }
            let remote = join_path(state.tabs[tab_idx].remote_path.as_str(), file_name.as_str());
            let task = TransferTask::new(
                TransferKind::Upload,
                state.tabs[tab_idx].id.clone(),
                local_path.clone(),
                remote,
                file_name.clone(),
                0,
            );
            state.status_message = "Upload queued via drag & drop".to_string();
            Some(task)
        },
        DragPayload::RemoteFile(_, _, _) => {
            state.status_message = "Cannot drop remote file onto remote pane".to_string();
            None
        },
    }
}

/// Takes in the listing asked for by `trigger_list` for tab `tab_idx`: on
/// success the tab shows the new entries, on failure the status line shows
/// the error; either way the tab stops loading. A tab closed meanwhile
/// (`tab_idx` past the end) is left alone.
pub fn finish_remote_list(state: &mut AppState, tab_idx: usize, result: Result<Vec<FileEntry>, String>)
    ensures
        tab_idx >= old(state).tabs@.len() ==> *final(state) == *old(state),
        tab_idx < old(state).tabs@.len() ==> ({
            let t = old(state).tabs@[tab_idx as int];
            match result {
                Ok(entries) => tab_set(
                    *old(state),
                    *final(state),
                    tab_idx as int,
                    Tab { remote_entries: entries, loading: false, ..t },
                ),
                Err(e) => {
                    &&& final(state).status_message@ == e@
                    &&& final(state).tabs@ == old(state).tabs@.update(
                        tab_idx as int,
                        Tab { loading: false, ..t },
                    )
                    &&& *final(state) == (AppState {
                        tabs: final(state).tabs,
                        status_message: final(state).status_message,
                        ..*old(state)
                    })
                },
            }
        }),
{
    if tab_idx >= state.tabs.len() {
        return;
    }
    let mut tab = replace_at(&mut state.tabs, tab_idx, placeholder_tab());
    tab.loading = false;
    match result {
        Ok(entries) => {
            tab.remote_entries = entries;
        },
        Err(e) => {
            state.status_message = e;
        },
    }
    let ghost new_tab = tab;
    replace_at(&mut state.tabs, tab_idx, tab);
    assert(state.tabs@ =~= old(state).tabs@.update(tab_idx as int, new_tab));
}

/// Takes in the outcome of a connection attempt started by
/// `submit_connection`: on success a connected tab showing the root
/// listing is added and made active and the dialog closes; on failure the
/// dialog shows the error. Either way the dialog stops waiting.
pub fn finish_connect(state: &mut AppState, result: Result<(ConnectionParams, Vec<FileEntry>), String>)
    ensures
        match result {
            Ok((params, entries)) => {
                &&& final(state).tabs@.len() == old(state).tabs@.len() + 1
                &&& final(state).tabs@.drop_last() == old(state).tabs@
                &&& final(state).tabs@.last().id == params.id
                &&& final(state).tabs@.last().label == params.label
                &&& final(state).tabs@.last().status is Connected
                &&& final(state).tabs@.last().remote_path@ == seq!['/']
                &&& final(state).tabs@.last().remote_entries == entries
                &&& final(state).tabs@.last().remote_selected is None
                &&& !final(state).tabs@.last().loading
                &&& *final(state) == (AppState {
                    tabs: final(state).tabs,
                    active_tab: old(state).tabs@.len() as usize,
                    connect_loading: false,
                    show_connect_dialog: false,
                    ..*old(state)
                })
            },
            Err(e) => *final(state) == (AppState {
                connect_error: e,
                connect_loading: false,
                ..*old(state)
            }),
        },
{
    state.connect_loading = false;
    match result {
        Ok((params, entries)) => {
            let tab = Tab {
                id: params.id,
                label: params.label,
                status: ConnectionStatus::Connected,
                remote_path: crate::paths::root_text(),
                remote_entries: entries,
                remote_selected: None,
                loading: false,
            };
            let ghost before = state.tabs@;
            state.active_tab = state.tabs.len();
            state.tabs.push(tab);
            assert(state.tabs@.drop_last() =~= before);
            state.show_connect_dialog = false;
        },
        Err(e) => {
            state.connect_error = e;
        },
    }
}

} // verus!
