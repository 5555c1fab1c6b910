//! What the screens decide: what is picked, listed, offered and said. Drawing
//! it is the front end's.
pub mod cable;
pub mod laws;
pub mod lobby;
pub mod play;
pub mod replays;
pub mod scrubber;
pub mod session_view;
pub mod settings;
pub mod telemetry;
