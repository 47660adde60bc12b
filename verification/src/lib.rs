//! The rules of a device manager for handheld consoles.
pub mod cec;
pub mod ctl;
pub mod daemon;
pub mod enums;
pub mod gpu;
pub mod hardware;
pub mod numbers;
pub mod platform;
pub mod power;
pub mod root;
pub mod screenreader;
pub mod session;
pub mod systemd;
pub mod text;
pub mod uinput;
pub mod wifi;
