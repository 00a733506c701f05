//! Request handling and batch synchronisation for a worker of a DAG-based
//! consensus node, written without I/O: every handler operation is a small
//! state machine that names the next outside action (a store access, a
//! validator call, a message to a peer or to the primary) and is resumed with
//! that action's outcome.

pub mod batch;
pub mod status;
pub mod machine;
pub mod directory;
pub mod messages;
pub mod synchronize;
pub mod delete;
pub mod fetch;
pub mod primary;
pub mod serve;
pub mod report;
pub mod worker;
pub mod guarantees;
