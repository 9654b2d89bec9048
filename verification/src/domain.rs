//! The values the client works on: directory entries, connections and
//! transfer tasks.
use vstd::prelude::*;
use crate::ids::{fresh_v4_id, is_v4_text};

verus! {

broadcast use vstd::string::group_string_axioms;

/// What a directory entry is.
#[derive(Clone, Copy, Debug, PartialEq, Eq, Structural)]
pub enum EntryKind {
    File,
    Dir,
    Symlink,
}

/// One line of a directory listing, local or remote.
#[derive(Clone, Debug)]
pub struct FileEntry {
    pub name: String,
    pub path: String,
    pub kind: EntryKind,
    pub size: Option<u64>,
    pub modified: Option<i64>,
    pub permissions: Option<u32>,
}

/// A copy of an optional string.
pub fn copy_opt_string(o: &Option<String>) -> (r: Option<String>)
    ensures
        r == *o,
{
    match o {
        Some(s) => Some(s.clone()),
        None => None,
    }
}

impl FileEntry {
    /// A field-by-field copy.
    pub fn copy(&self) -> (r: FileEntry)
        ensures
            r == *self,
    {
        FileEntry {
            name: self.name.clone(),
            path: self.path.clone(),
            kind: self.kind,
            size: self.size,
            modified: self.modified,
            permissions: self.permissions,
        }
    }
}

/// The state of a connection tab.
#[derive(Clone, Debug)]
pub enum ConnectionStatus {
    Disconnected,
    Connecting,
    Connected,
    Error(String),
}

impl ConnectionStatus {
    /// Whether the status is `Connected`.
    pub fn is_connected(&self) -> (r: bool)
        ensures
            r == (*self is Connected),
    {
        match self {
            ConnectionStatus::Connected => true,
            _ => false,
        }
    }
}

/// The symbol a tab shows before its label: a full circle when connected,
/// an empty one when disconnected, a half one while connecting, a cross
/// after an error.
pub fn status_symbol(status: &ConnectionStatus) -> (r: &'static str)
    ensures
        r@ == match status {
            ConnectionStatus::Connected => "\u{25CF}"@,
            ConnectionStatus::Disconnected => "\u{25CB}"@,
            ConnectionStatus::Connecting => "\u{25D0}"@,
            ConnectionStatus::Error(_) => "\u{2716}"@,
        },
{
    match status {
        ConnectionStatus::Connected => "\u{25CF}",
        ConnectionStatus::Disconnected => "\u{25CB}",
        ConnectionStatus::Connecting => "\u{25D0}",
        ConnectionStatus::Error(_) => "\u{2716}",
    }
}

/// The wire protocol of a connection.
#[derive(Clone, Copy, Debug, PartialEq, Eq, Structural)]
pub enum Protocol {
    Sftp,
    Ftp,
    Ftps,
}

/// What is needed to open a connection.
#[derive(Clone, Debug)]
pub struct ConnectionParams {
    pub id: String,
    pub label: String,
    pub protocol: Protocol,
    pub host: String,
    pub port: u16,
    pub username: String,
    pub password: Option<String>,
    pub key_path: Option<String>,
}

impl ConnectionParams {
    /// A field-by-field copy.
    pub fn copy(&self) -> (r: ConnectionParams)
        ensures
            r == *self,
    {
        ConnectionParams {
            id: self.id.clone(),
            label: self.label.clone(),
            protocol: self.protocol,
            host: self.host.clone(),
            port: self.port,
            username: self.username.clone(),
            password: copy_opt_string(&self.password),
            key_path: copy_opt_string(&self.key_path),
        }
    }
}

/// Direction of a transfer.
#[derive(Clone, Copy, Debug, PartialEq, Eq, Structural)]
pub enum TransferKind {
    Upload,
    Download,
}

/// Where a transfer task stands.
#[derive(Clone, Debug)]
pub enum TaskState {
    Queued,
    Running,
    Completed,
    Failed(String),
}

impl TaskState {
    /// A copy of the state.
    pub fn copy(&self) -> (r: TaskState)
        ensures
            r == *self,
    {
        match self {
            TaskState::Queued => TaskState::Queued,
            TaskState::Running => TaskState::Running,
            TaskState::Completed => TaskState::Completed,
            TaskState::Failed(m) => TaskState::Failed(m.clone()),
        }
    }

    /// The text the queue panel shows for the state.
    pub fn text(&self) -> (r: String)
        ensures
            r@ == match *self {
                TaskState::Queued => "Queued"@,
                TaskState::Running => "Running"@,
                TaskState::Completed => "Completed"@,
                TaskState::Failed(m) => "Failed: "@ + m@,
            },
    {
        match self {
            TaskState::Queued => "Queued".to_string(),
            TaskState::Running => "Running".to_string(),
            TaskState::Completed => "Completed".to_string(),
            TaskState::Failed(m) => {
                let mut r = "Failed: ".to_string();
                crate::text::push_str(&mut r, m.as_str());
                r
            },
        }
    }

    /// Whether the state is `Queued`.
    pub fn is_queued(&self) -> (r: bool)
        ensures
            r == (*self is Queued),
    {
        match self {
            TaskState::Queued => true,
            _ => false,
        }
    }
}

/// One upload or download, with its progress.
#[derive(Clone, Debug)]
pub struct TransferTask {
    pub id: String,
    pub kind: TransferKind,
    pub connection_id: String,
    pub local_path: String,
    pub remote_path: String,
    pub file_name: String,
    pub total_bytes: u64,
    pub transferred_bytes: u64,
    pub state: TaskState,
    pub speed: Option<u64>,
    pub eta_secs: Option<u64>,
}

impl TransferTask {
    /// A queued task with a fresh identifier and no progress yet.
    pub fn new(
        kind: TransferKind,
        connection_id: String,
        local_path: String,
        remote_path: String,
        file_name: String,
        total_bytes: u64,
    ) -> (t: TransferTask)
        ensures
            is_v4_text(t.id@),
            t.kind == kind,
            t.connection_id == connection_id,
            t.local_path == local_path,
            t.remote_path == remote_path,
            t.file_name == file_name,
            t.total_bytes == total_bytes,
            t.transferred_bytes == 0,
            t.state is Queued,
            t.speed is None,
            t.eta_secs is None,
    {
        TransferTask {
            id: fresh_v4_id(),
            kind,
            connection_id,
            local_path,
            remote_path,
            file_name,
            total_bytes,
            transferred_bytes: 0,
            state: TaskState::Queued,
            speed: None,
            eta_secs: None,
        }
    }

    /// A field-by-field copy.
    pub fn copy(&self) -> (r: TransferTask)
        ensures
            r == *self,
    {
        TransferTask {
            id: self.id.clone(),
            kind: self.kind,
            connection_id: self.connection_id.clone(),
            local_path: self.local_path.clone(),
            remote_path: self.remote_path.clone(),
            file_name: self.file_name.clone(),
            total_bytes: self.total_bytes,
            transferred_bytes: self.transferred_bytes,
            state: self.state.copy(),
            speed: self.speed,
            eta_secs: self.eta_secs,
        }
    }
}

} // verus!
