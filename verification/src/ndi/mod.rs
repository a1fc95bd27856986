//! The NDI transport's frames, the envelope that carries them through the
//! crosspoint as plain bytes, and its endpoints.

pub mod envelope;
pub mod frames;
pub mod transport;
