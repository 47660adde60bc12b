//! What the command line tool prints.
pub mod lists;
pub mod properties;
pub mod states;
