//! Decision core of an edge function that serves geospatial metadata.

pub mod bodies;
pub mod body_laws;
pub mod fgb;
pub mod flatbuf;
pub mod header_laws;
pub mod laws;
pub mod numbers;
pub mod reading;
pub mod reply;
pub mod search;
pub mod session;
pub mod session_laws;
pub mod text;
pub mod uri;
