//! Discovery of connection-manager endpoints and their load-ordered,
//! failure-aware round-robin rotation.
pub mod error;
pub mod handle;
pub mod options;
pub mod order;
pub mod registry;
pub mod server;
