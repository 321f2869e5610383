//! The operations of the file system, each as a script and as a state machine that follows it.
pub mod adapt;
pub mod attr;
pub mod create;
pub mod handle;
pub mod io;
pub mod link;
pub mod logged;
pub mod lookup;
pub mod mkdir;
pub mod open;
pub mod remove;
pub mod remove_all;
pub mod rename;
