//! The OMT transport's frame values, the envelope that carries them through
//! the crosspoint as plain bytes, and its endpoints.

pub mod envelope;
pub mod sys;
pub mod transport;
