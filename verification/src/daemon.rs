//! The daemon: what it does on signals, commands and the ends of its services.
pub mod notify;
pub mod run;
pub mod user;
