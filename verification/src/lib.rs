//! Core logic of a two-pane file transfer client: path arithmetic,
//! size and time labels, drag-and-drop payloads, the transfer queue and
//! the decisions that the user interface takes on each event.

pub mod connect;
pub mod domain;
pub mod drag;
pub mod ids;
pub mod listing;
pub mod panes;
pub mod paths;
pub mod sizes;
pub mod state;
pub mod text;
pub mod times;
pub mod toolbar;
pub mod transfer;
pub mod tree;
