//! A small Bitcoin peer-to-peer node: the verified core.
//!
//! The modules hold the rules of the node (peer bookkeeping, address
//! handling, the handshake and message handling decisions); the sockets,
//! the database and the tasks that drive them live in the application.

pub mod address;
pub mod daemon;
pub mod error;
pub mod message;
pub mod node;
pub mod peer;
pub mod text;
pub mod threaded;

pub use error::SeminarNodeError;
pub use threaded::SeminarNode;
