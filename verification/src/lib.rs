//! Parameter lifecycle and session orchestration for a proof-of-replication
//! workflow.
//!
//! The crate derives the on-disk layout for the artifacts of one replication,
//! serializes the typed parameters that must survive across process
//! invocations, sequences the setup / prove / verify operations around an
//! external proof-construction engine, and encodes the string conventions of
//! the foreign-function boundary.  All file and engine access is performed by
//! the embedding application; this crate supplies the verified decisions,
//! paths, and byte-level codecs.

pub mod boundary;
pub mod error;
pub mod json;
pub mod params;
pub mod store;
pub mod util;
pub mod vanilla;
