//! What the web UI and REST API decide: the state snapshot they show, and
//! whether a route request is applied. A route between transports whose
//! payloads differ (an NDI source into an SRT output, say) is refused before
//! it reaches the crosspoint, since the far end could not decode it.

use crate::crosspoint::{Crosspoint, CrosspointView};
use crate::kinds::{payload_compatible, TransportKind};
use crate::registry::Registry;
use vstd::prelude::*;

verus! {

/// The whole crosspoint state: every source, every output, and each output's
/// source.
pub struct StateResponse {
    pub sources: Vec<String>,
    pub outputs: Vec<String>,
    pub routes: Vec<(String, String)>,
}

pub struct RouteRequest {
    pub output: String,
    pub source: String,
}

pub struct RouteResponse {
    pub ok: bool,
    pub error: Option<String>,
}

pub fn snapshot(crosspoint: &Crosspoint) -> (s: StateResponse)
    ensures
        crate::crosspoint::ids_view(s.sources@).to_set() == crosspoint@.sources,
        crate::crosspoint::ids_view(s.sources@).no_duplicates(),
        crate::crosspoint::ids_view(s.outputs@).to_set() == crosspoint@.routes.dom(),
        crate::crosspoint::ids_view(s.outputs@).no_duplicates(),
        crate::assoc::keys_distinct(crate::crosspoint::pairs_view(s.routes@)),
        crate::assoc::assoc_map(crate::crosspoint::pairs_view(s.routes@)) == crosspoint@.routes,
{
    StateResponse {
        sources: crosspoint.source_ids(),
        outputs: crosspoint.output_ids(),
        routes: crosspoint.routes(),
    }
}

/// Both kinds are known and their payloads differ.
pub open spec fn kinds_clash(output: Option<TransportKind>, source: Option<TransportKind>) -> bool {
    match (output, source) {
        (Some(o), Some(s)) => o.payload_class() != s.payload_class(),
        _ => false,
    }
}

/// The refusal text for a cross-payload route.
pub open spec fn clash_message(source: TransportKind, output: TransportKind) -> Seq<char> {
    "can't route a "@ + source.spec_name() + " source to a "@ + output.spec_name()
        + " output without transcoding"@
}

/// Applies a route request whose output and source kinds have been looked
/// up (`None` where unknown): refused with an explanation when the payloads
/// differ, otherwise passed to the crosspoint, whose answer is reported.
pub fn route_with_kinds(
    crosspoint: &mut Crosspoint,
    output_kind: Option<TransportKind>,
    source_kind: Option<TransportKind>,
    output: &str,
    source: &str,
) -> (r: RouteResponse)
    ensures
        kinds_clash(output_kind, source_kind) ==> {
            &&& !r.ok
            &&& r.error matches Some(msg) && msg@ == clash_message(
                source_kind.unwrap(),
                output_kind.unwrap(),
            )
            &&& final(crosspoint)@ == old(crosspoint)@
        },
        !kinds_clash(output_kind, source_kind) ==> {
            &&& r.ok == old(crosspoint)@.accepts_route(output@, source@)
            &&& r.error is None
            &&& final(crosspoint)@ == old(crosspoint)@.after_route(output@, source@)
        },
{
    if let (Some(out_kind), Some(src_kind)) = (output_kind, source_kind) {
        if !payload_compatible(src_kind, out_kind) {
            let mut msg = String::from_str("can't route a ");
            msg.append(src_kind.as_str());
            msg.append(" source to a ");
            msg.append(out_kind.as_str());
            msg.append(" output without transcoding");
            return RouteResponse { ok: false, error: Some(msg) };
        }
    }
    let ok = crosspoint.route(output, source);
    RouteResponse { ok, error: None }
}

/// `POST /api/route`. With a registry, each id's transport kind is looked up
/// in it and a cross-payload route is refused; without one, every request
/// goes straight to the crosspoint.
pub fn post_route(crosspoint: &mut Crosspoint, kinds: Option<&Registry>, req: &RouteRequest) -> (r:
    RouteResponse)
    ensures
        ({
            let (ok_kind, sk_kind) = match kinds {
                Some(reg) => (reg@.kind_of(req.output@), reg@.kind_of(req.source@)),
                None => (None, None),
            };
            &&& kinds_clash(ok_kind, sk_kind) ==> !r.ok && (r.error matches Some(msg) && msg@
                == clash_message(sk_kind.unwrap(), ok_kind.unwrap())) && final(crosspoint)@
                == old(crosspoint)@
            &&& !kinds_clash(ok_kind, sk_kind) ==> r.ok == old(crosspoint)@.accepts_route(
                req.output@,
                req.source@,
            ) && r.error is None && final(crosspoint)@ == old(crosspoint)@.after_route(
                req.output@,
                req.source@,
            )
        }),
{
    let (out_kind, src_kind) = match kinds {
        Some(reg) => (reg.kind_of(req.output.as_str()), reg.kind_of(req.source.as_str())),
        None => (None, None),
    };
    route_with_kinds(crosspoint, out_kind, src_kind, req.output.as_str(), req.source.as_str())
}

/// A route within one transport is never refused for its kinds, and SRT and
/// media mix freely, since both carry plain MPEG-TS; an unknown kind on
/// either side never refuses a route either.
pub proof fn law_kind_check_allows(k: TransportKind, other: Option<TransportKind>)
    ensures
        !kinds_clash(Some(k), Some(k)),
        !kinds_clash(Some(TransportKind::Srt), Some(TransportKind::Media)),
        !kinds_clash(Some(TransportKind::Media), Some(TransportKind::Srt)),
        !kinds_clash(None, other),
        !kinds_clash(other, None),
{
}

/// NDI and OMT each carry an envelope of their own, so neither mixes with any
/// other kind.
pub proof fn law_envelope_kinds_stay_apart(k: TransportKind)
    ensures
        k != TransportKind::Ndi ==> kinds_clash(Some(k), Some(TransportKind::Ndi)),
        k != TransportKind::Omt ==> kinds_clash(Some(k), Some(TransportKind::Omt)),
{
}

} // verus!
