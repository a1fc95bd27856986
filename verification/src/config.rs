//! The router's configuration file, as values: which transport each input and
//! output uses (an explicit `transport` tag, since NDI's and OMT's sender
//! shapes are otherwise identical), the web bind address, and where routing
//! state persists, if anywhere.

use crate::kinds::TransportKind;
use crate::media;
use crate::ndi;
use crate::omt;
use crate::srt;
use vstd::prelude::*;

verus! {

/// The transport of an output (and of every input kind that also has an
/// output side).
pub enum Transport {
    Srt(srt::Endpoint),
    Ndi(ndi::transport::Endpoint),
    Omt(omt::transport::Endpoint),
}

/// The transport of an input: any output transport, or a media source,
/// which has no output side.
pub enum InputTransport {
    Srt(srt::Endpoint),
    Ndi(ndi::transport::Endpoint),
    Omt(omt::transport::Endpoint),
    Media(media::Endpoint),
}

impl Transport {
    pub open spec fn spec_kind(&self) -> TransportKind {
        match self {
            Transport::Srt(_) => TransportKind::Srt,
            Transport::Ndi(_) => TransportKind::Ndi,
            Transport::Omt(_) => TransportKind::Omt,
        }
    }

    /// The kind an output is registered under; never `Media`.
    pub fn kind(&self) -> (k: TransportKind)
        ensures
            k == self.spec_kind(),
            k != TransportKind::Media,
    {
        match self {
            Transport::Srt(_) => TransportKind::Srt,
            Transport::Ndi(_) => TransportKind::Ndi,
            Transport::Omt(_) => TransportKind::Omt,
        }
    }
}

impl InputTransport {
    pub open spec fn spec_kind(&self) -> TransportKind {
        match self {
            InputTransport::Srt(_) => TransportKind::Srt,
            InputTransport::Ndi(_) => TransportKind::Ndi,
            InputTransport::Omt(_) => TransportKind::Omt,
            InputTransport::Media(_) => TransportKind::Media,
        }
    }

    /// The kind an input is registered under.
    pub fn kind(&self) -> (k: TransportKind)
        ensures
            k == self.spec_kind(),
    {
        match self {
            InputTransport::Srt(_) => TransportKind::Srt,
            InputTransport::Ndi(_) => TransportKind::Ndi,
            InputTransport::Omt(_) => TransportKind::Omt,
            InputTransport::Media(_) => TransportKind::Media,
        }
    }
}

pub struct Config {
    pub web: WebConfig,
    pub inputs: Vec<InputConfig>,
    pub outputs: Vec<OutputConfig>,
    /// If present, routing changes persist to disk and are reloaded on
    /// startup, overriding each output's `default_source`; if absent, routing
    /// lives in memory only and resets to `default_source` on every restart.
    pub state: Option<StateConfig>,
}

pub struct StateConfig {
    pub path: String,
}

pub struct WebConfig {
    pub bind: String,
}

pub struct InputConfig {
    pub id: String,
    pub endpoint: InputTransport,
}

pub struct OutputConfig {
    pub id: String,
    pub endpoint: Transport,
    /// Source this output is routed from at startup.
    pub default_source: String,
}

} // verus!
