//! The network side: what peers say to each other, and how they get to know
//! one another.
pub mod boots;
pub mod laws;
pub mod lobby;
pub mod mesh;
pub mod packing;
pub mod protocol;
