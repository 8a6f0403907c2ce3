//! Keyboard chatter filter: the decisions of a daemon that sits between a
//! physical keyboard and the programs that read it.
//!
//! The library holds no device and reads no clock. It is handed key events
//! with the time at which they arrived and says what becomes of each.
pub mod clock;
pub mod conf_file;
pub mod config;
pub mod debounce;
pub mod device;
pub mod filter;
pub mod keys;
pub mod laws;
pub mod log;
pub mod setup;
pub mod supervisor;
pub mod text;
pub mod tracker;
