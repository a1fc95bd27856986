//! SRT endpoints: each input and output owns one SRT socket.

use vstd::prelude::*;

verus! {

/// How an SRT socket for one endpoint is established.
pub enum Endpoint {
    /// This router waits for the remote encoder/decoder to connect to it.
    Listener { bind: String },
    /// This router dials out to a remote SRT listener.
    Caller { connect: String },
}

} // verus!
