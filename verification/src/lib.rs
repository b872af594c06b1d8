//! Relay core for republishing one live RTSP source to many WebRTC viewers:
//! codec ranking, stream selection, packet routing with lossy backpressure,
//! the session registry and the WHEP signaling decisions.

pub mod cli;
pub mod codec;
pub mod feedback;
pub mod pump;
pub mod registry;
pub mod selection;
pub mod state;
pub mod text;
pub mod whep;
