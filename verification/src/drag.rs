//! What is carried while a file is dragged between the panes.
use vstd::prelude::*;
use crate::domain::FileEntry;
use crate::text::text_eq;

verus! {

broadcast use vstd::string::group_string_axioms;

/// A dragged file: from the local pane (path, name), or from a remote
/// pane (path, name, connection id).
#[derive(Clone, Debug)]
pub enum DragPayload {
    LocalFile(String, String),
    RemoteFile(String, String, String),
}

/// The name of the ".." entry.
pub open spec fn parent_entry_name() -> Seq<char> {
    seq!['.', '.']
}

/// Whether the entry is the ".." entry.
pub fn is_parent_entry(entry: &FileEntry) -> (r: bool)
    ensures
        r == (entry.name@ == parent_entry_name()),
{
    proof {
        reveal_strlit("..");
        assert(".."@ =~= parent_entry_name());
    }
    text_eq(entry.name.as_str(), "..")
}

impl DragPayload {
    /// The name of the dragged file.
    pub fn file_name(&self) -> (r: &str)
        ensures
            r@ == match self {
                DragPayload::LocalFile(_, name) => name@,
                DragPayload::RemoteFile(_, name, _) => name@,
            },
    {
        match self {
            DragPayload::LocalFile(_, name) => name.as_str(),
            DragPayload::RemoteFile(_, name, _) => name.as_str(),
        }
    }

    /// Whether the file comes from the local pane.
    pub fn is_from_local(&self) -> (r: bool)
        ensures
            r == (*self is LocalFile),
    {
        match self {
            DragPayload::LocalFile(_, _) => true,
            _ => false,
        }
    }

    /// Whether the file comes from a remote pane.
    pub fn is_from_remote(&self) -> (r: bool)
        ensures
            r == (*self is RemoteFile),
    {
        match self {
            DragPayload::RemoteFile(_, _, _) => true,
            _ => false,
        }
    }
}

/// The payload for dragging a local entry; the ".." entry cannot be dragged.
pub fn make_local_payload(entry: &FileEntry) -> (r: Option<DragPayload>)
    ensures
        r == if entry.name@ == parent_entry_name() {
            None
        } else {
            Some(DragPayload::LocalFile(entry.path, entry.name))
        },
{
    if is_parent_entry(entry) {
        return None;
    }
    Some(DragPayload::LocalFile(entry.path.clone(), entry.name.clone()))
}

/// The payload for dragging a remote entry of connection `connection_id`;
/// the ".." entry cannot be dragged.
pub fn make_remote_payload(entry: &FileEntry, connection_id: &str) -> (r: Option<DragPayload>)
    ensures
        r is None <==> entry.name@ == parent_entry_name(),
        r matches Some(p) ==> (p matches DragPayload::RemoteFile(path, name, conn) && path
            == entry.path && name == entry.name && conn@ == connection_id@),
{
    if is_parent_entry(entry) {
        return None;
    }
    Some(DragPayload::RemoteFile(entry.path.clone(), entry.name.clone(), connection_id.to_string()))
}

} // verus!
