//! Persisted collections of browser tabs ("sites"), replayed later by
//! launching a configured browser in a configured mode.
//!
//! The crate owns the in-memory document that backs the store: collection
//! records with auto-incrementing identity, named browser profiles, and the
//! precedence chain that resolves a collection's partial configuration into a
//! concrete browser invocation.  Reading and writing the document file, and
//! spawning the browser processes, are left to the surrounding application;
//! everything the application decides with is specified and verified here.

pub mod clock;
pub mod text;
pub mod utils;
pub mod models;
pub mod launch;
pub mod laws;
pub mod services;
pub mod store;
