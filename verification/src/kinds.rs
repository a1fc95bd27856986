//! Transport kinds, and which of them carry the same payload.

use vstd::prelude::*;

verus! {

/// The transport a source or output runs on.
#[derive(Debug, Clone, Copy, PartialEq, Eq, Structural)]
pub enum TransportKind {
    Srt,
    Ndi,
    Omt,
    Media,
}

impl TransportKind {
    /// The payload family a kind carries: SRT relays and media sources both
    /// move plain MPEG-TS; NDI and OMT each have an envelope of their own.
    pub open spec fn payload_class(self) -> int {
        match self {
            TransportKind::Srt => 0,
            TransportKind::Media => 0,
            TransportKind::Ndi => 1,
            TransportKind::Omt => 2,
        }
    }

    pub open spec fn spec_name(self) -> Seq<char> {
        match self {
            TransportKind::Srt => "srt"@,
            TransportKind::Ndi => "ndi"@,
            TransportKind::Omt => "omt"@,
            TransportKind::Media => "media"@,
        }
    }

    /// The kind's name as it appears in the API and the config file.
    pub fn as_str(self) -> (s: &'static str)
        ensures
            s@ == self.spec_name(),
    {
        match self {
            TransportKind::Srt => "srt",
            TransportKind::Ndi => "ndi",
            TransportKind::Omt => "omt",
            TransportKind::Media => "media",
        }
    }
}

/// Whether a source of kind `source` can feed an output of kind `output`
/// without transcoding: the two must carry the same payload family.
pub fn payload_compatible(source: TransportKind, output: TransportKind) -> (ok: bool)
    ensures
        ok == (source.payload_class() == output.payload_class()),
{
    match (source, output) {
        (TransportKind::Srt, TransportKind::Srt) => true,
        (TransportKind::Srt, TransportKind::Media) => true,
        (TransportKind::Media, TransportKind::Srt) => true,
        (TransportKind::Media, TransportKind::Media) => true,
        (TransportKind::Ndi, TransportKind::Ndi) => true,
        (TransportKind::Omt, TransportKind::Omt) => true,
        _ => false,
    }
}

/// Payload compatibility is an equivalence: every kind feeds its own kind,
/// the relation is symmetric, and it is transitive.
pub proof fn law_payload_compatibility_is_an_equivalence(
    a: TransportKind,
    b: TransportKind,
    c: TransportKind,
)
    ensures
        a.payload_class() == a.payload_class(),
        (a.payload_class() == b.payload_class()) == (b.payload_class() == a.payload_class()),
        a.payload_class() == b.payload_class() && b.payload_class() == c.payload_class()
            ==> a.payload_class() == c.payload_class(),
{
}

} // verus!
