//! Vocabulary and outline indexing for one open document.
//!
//! The crate keeps a deduplicated word list and a symbol outline in step with
//! a versioned document. Scanning and candidate building are pure functions;
//! the coordination rules (supersession of pending rebuilds, the version gate,
//! teardown) are a state machine whose transitions carry their contracts.
pub mod candidates;
pub mod outline;
pub mod scan;
pub mod snapshot;
pub mod state;
pub mod words;
