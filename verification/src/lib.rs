//! gbaroll: link-cable sessions for emulated handhelds.
pub mod audio;
pub mod bytes;
pub mod config;
pub mod effects;
pub mod input;
pub mod library;
pub mod models;
pub mod net;
pub mod nointro;
pub mod replay;
pub mod runtime;
pub mod server;
pub mod session;
pub mod signaling;
pub mod storage;
pub mod text;
pub mod ui;
