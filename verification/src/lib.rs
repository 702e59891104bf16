//! A transactional catalog of media libraries, written as a protocol core.
//!
//! The crate holds the decisions of a catalog store and none of its I/O. Each
//! catalog operation is a small state machine: it is handed the backend's reply
//! to the statement it issued last and answers with the next statement, or with
//! the operation's result. Whoever owns the database connection runs the loop.
//!
//! * [`media_type`]: the closed set of content kinds and its wire tokens.
//! * [`error`]: the error kinds an operation can end in.
//! * [`events`]: change notifications and their JSON envelope.
//! * [`protocol`]: statements, replies and steps exchanged with a backend.
//! * [`library`]: the five catalog operations.
//! * [`model`]: the reference semantics of a relational backend.
//! * [`memory`]: an executable backend that refines the reference semantics.
//! * [`laws`]: what holds of every run of an operation against the model.
pub mod error;
pub mod events;
pub mod laws;
pub mod library;
pub mod media_type;
pub mod memory;
pub mod model;
pub mod protocol;

pub use error::DatabaseError;
pub use events::{Message, PushEventType};
pub use library::{
    DeleteState, FetchState, GetOneState, InsertState, InsertableLibrary, Library,
};
pub use media_type::MediaType;
pub use memory::MemoryDatabase;
pub use protocol::{LibraryRow, Reply, Statement, Step};
