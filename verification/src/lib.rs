//! Decision logic of a daemon that serves a Unix domain socket and proxies each
//! connection to a target Unix socket found via glob patterns.

pub mod active;
pub mod cli;
pub mod connection;
pub mod find;
pub mod order;
pub mod path;
pub mod server;
pub mod setup;
pub mod signals;
pub mod span;
pub mod startup;
pub mod text;
pub mod wait;

pub use find::GlobSort;
