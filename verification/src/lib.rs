pub mod assoc;
pub mod channels;
pub mod config;
pub mod crosspoint;
pub mod host;
pub mod kinds;
pub mod launcher;
pub mod management;
pub mod media;
pub mod ndi;
pub mod omt;
pub mod registry;
pub mod relay;
pub mod srt;
pub mod state;
pub mod toml_patch;
pub mod text;
pub mod web;
pub mod wire;
