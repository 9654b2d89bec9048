//! The state the user interface works on, and the decisions on tabs.
use vstd::prelude::*;
use crate::domain::{ConnectionStatus, FileEntry, TransferTask};
use crate::text::text_eq;

verus! {

/// One open connection, with the remote directory it shows.
pub struct Tab {
    pub id: String,
    pub label: String,
    pub status: ConnectionStatus,
    pub remote_path: String,
    pub remote_entries: Vec<FileEntry>,
    pub remote_selected: Option<String>,
    pub loading: bool,
}

/// A named local folder.
pub struct Bookmark {
    pub name: String,
    pub path: String,
}

/// The subfolders listed so far for one folder of the local tree.
pub struct TreeFolder {
    pub path: String,
    pub dirs: Vec<FileEntry>,
}

/// Everything the panes show and edit.
pub struct AppState {
    pub tabs: Vec<Tab>,
    pub active_tab: usize,
    pub status_message: String,
    pub local_path: String,
    pub local_entries: Vec<FileEntry>,
    pub local_selected: Option<String>,
    pub local_tree_open: bool,
    pub show_queue: bool,
    pub show_connect_dialog: bool,
    pub queue_tasks: Vec<TransferTask>,
    pub connect_protocol: usize,
    pub connect_label: String,
    pub connect_host: String,
    pub connect_port: String,
    pub connect_user: String,
    pub connect_pass: String,
    pub connect_key_path: String,
    pub connect_error: String,
    pub connect_loading: bool,
    pub tree_children: Vec<TreeFolder>,
    pub tree_expanded: Vec<String>,
    pub bookmarks: Vec<Bookmark>,
}

impl AppState {
    /// A state with no tab, no listing and every flag off, showing `local_path`.
    pub fn new(local_path: String) -> (s: AppState)
        ensures
            s.tabs@.len() == 0,
            s.active_tab == 0,
            s.status_message@.len() == 0,
            s.local_path == local_path,
            s.local_entries@.len() == 0,
            s.local_selected is None,
            !s.local_tree_open,
            !s.show_queue,
            !s.show_connect_dialog,
            s.queue_tasks@.len() == 0,
            s.connect_protocol == 0,
            s.connect_label@.len() == 0,
            s.connect_host@.len() == 0,
            s.connect_port@.len() == 0,
            s.connect_user@.len() == 0,
            s.connect_pass@.len() == 0,
            s.connect_key_path@.len() == 0,
            s.connect_error@.len() == 0,
            !s.connect_loading,
            s.tree_children@.len() == 0,
            crate::tree::tree_well_formed(s.tree_children@),
            s.tree_expanded@.len() == 0,
            s.bookmarks@.len() == 0,
    {
        AppState {
            tabs: Vec::new(),
            active_tab: 0,
            status_message: String::new(),
            local_path,
            local_entries: Vec::new(),
            local_selected: None,
            local_tree_open: false,
            show_queue: false,
            show_connect_dialog: false,
            queue_tasks: Vec::new(),
            connect_protocol: 0,
            connect_label: String::new(),
            connect_host: String::new(),
            connect_port: String::new(),
            connect_user: String::new(),
            connect_pass: String::new(),
            connect_key_path: String::new(),
            connect_error: String::new(),
            connect_loading: false,
            tree_children: Vec::new(),
            tree_expanded: Vec::new(),
            bookmarks: Vec::new(),
        }
    }

    /// The active tab, if `active_tab` designates one.
    pub fn active_tab_ref(&self) -> (r: Option<&Tab>)
        ensures
            r == if self.active_tab < self.tabs@.len() {
                Some(&self.tabs@[self.active_tab as int])
            } else {
                None
            },
    {
        if self.active_tab < self.tabs.len() {
            Some(&self.tabs[self.active_tab])
        } else {
            None
        }
    }

    /// Whether the active tab exists and is connected.
    pub fn active_connected(&self) -> (r: bool)
        ensures
            r == (self.active_tab < self.tabs@.len() && self.tabs@[self.active_tab as int].status is Connected),
    {
        match self.active_tab_ref() {
            Some(t) => t.status.is_connected(),
            None => false,
        }
    }

    /// Makes tab `i` the active one (a click on its button).
    pub fn select_tab(&mut self, i: usize)
        ensures
            *final(self) == (AppState { active_tab: i, ..*old(self) }),
    {
        self.active_tab = i;
    }

    /// Closes tab `idx`; when the active index falls past the end, the last
    /// remaining tab becomes active.
    pub fn close_tab(&mut self, idx: usize)
        requires
            idx < old(self).tabs@.len(),
        ensures
            final(self).tabs@ == old(self).tabs@.remove(idx as int),
            final(self).active_tab == if old(self).active_tab >= final(self).tabs@.len()
                && final(self).tabs@.len() > 0 {
                (final(self).tabs@.len() - 1) as usize
            } else {
                old(self).active_tab
            },
            final(self).tabs@.len() > 0 ==> final(self).active_tab < final(self).tabs@.len(),
            *final(self) == (AppState {
                tabs: final(self).tabs,
                active_tab: final(self).active_tab,
                ..*old(self)
            }),
    {
        self.tabs.remove(idx);
        if self.active_tab >= self.tabs.len() && self.tabs.len() > 0 {
            self.active_tab = self.tabs.len() - 1;
        }
    }

    /// Flips whether the transfer queue is shown.
    pub fn toggle_queue(&mut self)
        ensures
            *final(self) == (AppState { show_queue: !old(self).show_queue, ..*old(self) }),
    {
        self.show_queue = !self.show_queue;
    }

    /// Asks for the connection dialog.
    pub fn open_connect_dialog(&mut self)
        ensures
            *final(self) == (AppState { show_connect_dialog: true, ..*old(self) }),
    {
        self.show_connect_dialog = true;
    }

    /// Number of tabs whose connection is up.
    pub fn connected_count(&self) -> (n: usize)
        ensures
            n == connected_in(self.tabs@),
            n == self.tabs@.filter(|t: Tab| t.status is Connected).len(),
            n <= self.tabs@.len(),
    {
        proof {
            lemma_connected_in_counts_connected(self.tabs@);
        }
        let mut n: usize = 0;
        let mut i: usize = 0;
        while i < self.tabs.len()
            invariant
                i <= self.tabs@.len(),
                n == connected_in(self.tabs@.take(i as int)),
                n <= i,
            decreases self.tabs@.len() - i,
        {
            assert(self.tabs@.take(i + 1).drop_last() =~= self.tabs@.take(i as int));
            if self.tabs[i].status.is_connected() {
                n = n + 1;
            }
            i = i + 1;
        }
        assert(self.tabs@.take(self.tabs@.len() as int) =~= self.tabs@);
        n
    }
}

/// Number of connected tabs in `tabs`.
pub open spec fn connected_in(tabs: Seq<Tab>) -> nat
    decreases tabs.len(),
{
    if tabs.len() == 0 {
        0
    } else {
        connected_in(tabs.drop_last()) + if tabs.last().status is Connected {
            1nat
        } else {
            0nat
        }
    }
}

/// The number of connected tabs counts exactly the tabs whose status is
/// `Connected`: a tab that is disconnected, connecting or in error never
/// adds to it.
pub proof fn lemma_connected_in_counts_connected(tabs: Seq<Tab>)
    ensures
        connected_in(tabs) == tabs.filter(|t: Tab| t.status is Connected).len(),
    decreases tabs.len(),
{
    reveal(Seq::filter);
    if tabs.len() > 0 {
        lemma_connected_in_counts_connected(tabs.drop_last());
    }
}

/// The tab the download button reads: the active one, or the last one when
/// the active index is past the end.
pub open spec fn clamped_tab(s: AppState) -> int {
    if s.active_tab < s.tabs@.len() {
        s.active_tab as int
    } else {
        s.tabs@.len() - 1
    }
}

/// The remote selection of the clamped active tab.
pub fn tab_remote_selected(state: &AppState) -> (r: Option<String>)
    ensures
        r == if state.tabs@.len() == 0 {
            None
        } else {
            state.tabs@[clamped_tab(*state)].remote_selected
        },
{
    let last = if state.tabs.len() == 0 {
        0
    } else {
        state.tabs.len() - 1
    };
    let idx = if state.active_tab < last {
        state.active_tab
    } else {
        last
    };
    if idx < state.tabs.len() {
        crate::domain::copy_opt_string(&state.tabs[idx].remote_selected)
    } else {
        None
    }
}

/// Whether `i` is the first position of `s` holding an entry named `name`.
pub open spec fn is_first_named(s: Seq<FileEntry>, name: Seq<char>, i: int) -> bool {
    0 <= i < s.len() && s[i].name@ == name && forall|j: int| 0 <= j < i ==> s[j].name@ != name
}

/// The first position of `s` holding an entry named `name`, if any.
pub open spec fn first_named(s: Seq<FileEntry>, name: Seq<char>) -> Option<int> {
    if exists|i: int| is_first_named(s, name, i) {
        Some(choose|i: int| is_first_named(s, name, i))
    } else {
        None
    }
}

/// There is at most one first position.
pub proof fn lemma_first_named_unique(s: Seq<FileEntry>, name: Seq<char>, i: int, j: int)
    requires
        is_first_named(s, name, i),
        is_first_named(s, name, j),
    ensures
        i == j,
{
}

/// Finds the first entry named `name`.
pub fn find_named(entries: &Vec<FileEntry>, name: &str) -> (r: Option<usize>)
    ensures
        match r {
            Some(i) => first_named(entries@, name@) == Some(i as int),
            None => first_named(entries@, name@) is None,
        },
{
    let mut i: usize = 0;
    while i < entries.len()
        invariant
            i <= entries@.len(),
            forall|j: int| 0 <= j < i ==> entries@[j].name@ != name@,
        decreases entries@.len() - i,
    {
        if text_eq(entries[i].name.as_str(), name) {
            proof {
                assert(is_first_named(entries@, name@, i as int));
                let c = choose|k: int| is_first_named(entries@, name@, k);
                lemma_first_named_unique(entries@, name@, i as int, c);
            }
            return Some(i);
        }
        i = i + 1;
    }
    None
}

} // verus!
