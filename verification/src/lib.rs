//! Persistence and reconstruction of a workspace's pane layout.
//!
//! The crate models the record that describes one workspace window: the
//! recursive tree of split groups and panes, the items each pane holds, the
//! dock states, and the location key that identifies the workspace. It
//! provides the positional column encoding used to store such a record in a
//! row store, and the pure reconstruction logic that turns a persisted tree
//! plus per-item rehydration outcomes back into a live pane tree.

pub mod assemble;
pub mod codec;
pub mod column;
pub mod model;
pub mod rebuild;
pub mod status;
