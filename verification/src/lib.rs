//! The verified core of a gateway that relays a remote desktop's graphics
//! channel to a browser without decoding or re-encoding its H.264 stream.

pub mod avc;
pub mod bytes;
pub mod clock;
pub mod codecs;
pub mod config;
pub mod egfx;
pub mod laws;
pub mod outcome;
pub mod pdu;
pub mod pixels;
pub mod protocol;
pub mod rdp;
pub mod relay;
pub mod session;
pub mod stamps;
pub mod text;
pub mod zgfx;
