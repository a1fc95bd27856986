//! The runtime add/remove API's decisions. Sources and outputs from the
//! config file and those added later converge on the same registry, so a
//! config-defined source is exactly as listable and removable as one added
//! through the API. Spawning the transport task itself is I/O and happens
//! around these calls.

use crate::crosspoint::Crosspoint;
use crate::kinds::TransportKind;
use crate::media;
use crate::ndi;
use crate::omt;
use crate::registry::Registry;
use tokio_util::sync::CancellationToken;
use crate::srt;
use crate::text;
use crate::text::{blank, less_than};
use vstd::prelude::*;
use vstd::std_specs::convert::FromSpecImpl;

verus! {

// --------------------------------------------------------------- requests --

/// Mirrors `srt::Endpoint`'s shape for request bodies, so the API's wire
/// format does not change if that type's internals do.
pub enum SrtEndpointRequest {
    Listener { bind: String },
    Caller { connect: String },
}

impl From<SrtEndpointRequest> for srt::Endpoint {
    fn from(req: SrtEndpointRequest) -> (e: Self) {
        match req {
            SrtEndpointRequest::Listener { bind } => srt::Endpoint::Listener { bind },
            SrtEndpointRequest::Caller { connect } => srt::Endpoint::Caller { connect },
        }
    }
}

impl FromSpecImpl<SrtEndpointRequest> for srt::Endpoint {
    open spec fn obeys_from_spec() -> bool {
        true
    }

    open spec fn from_spec(req: SrtEndpointRequest) -> Self {
        match req {
            SrtEndpointRequest::Listener { bind } => srt::Endpoint::Listener { bind },
            SrtEndpointRequest::Caller { connect } => srt::Endpoint::Caller { connect },
        }
    }
}

/// Mirrors `ndi::transport::Endpoint`.
pub enum NdiEndpointRequest {
    Receiver { source_name: String },
    Sender { name: String },
}

impl From<NdiEndpointRequest> for ndi::transport::Endpoint {
    fn from(req: NdiEndpointRequest) -> (e: Self) {
        match req {
            NdiEndpointRequest::Receiver { source_name } => ndi::transport::Endpoint::Receiver {
                source_name,
            },
            NdiEndpointRequest::Sender { name } => ndi::transport::Endpoint::Sender { name },
        }
    }
}

impl FromSpecImpl<NdiEndpointRequest> for ndi::transport::Endpoint {
    open spec fn obeys_from_spec() -> bool {
        true
    }

    open spec fn from_spec(req: NdiEndpointRequest) -> Self {
        match req {
            NdiEndpointRequest::Receiver { source_name } => ndi::transport::Endpoint::Receiver {
                source_name,
            },
            NdiEndpointRequest::Sender { name } => ndi::transport::Endpoint::Sender { name },
        }
    }
}

/// Mirrors `omt::transport::Endpoint`. Its `Sender` shape is identical to
/// NDI's, which is why requests carry an explicit transport tag.
pub enum OmtEndpointRequest {
    Receiver { address: String },
    Sender { name: String },
}

impl From<OmtEndpointRequest> for omt::transport::Endpoint {
    fn from(req: OmtEndpointRequest) -> (e: Self) {
        match req {
            OmtEndpointRequest::Receiver { address } => omt::transport::Endpoint::Receiver {
                address,
            },
            OmtEndpointRequest::Sender { name } => omt::transport::Endpoint::Sender { name },
        }
    }
}

impl FromSpecImpl<OmtEndpointRequest> for omt::transport::Endpoint {
    open spec fn obeys_from_spec() -> bool {
        true
    }

    open spec fn from_spec(req: OmtEndpointRequest) -> Self {
        match req {
            OmtEndpointRequest::Receiver { address } => omt::transport::Endpoint::Receiver {
                address,
            },
            OmtEndpointRequest::Sender { name } => omt::transport::Endpoint::Sender { name },
        }
    }
}

/// Mirrors `media::Endpoint`, with every size and the loop flag optional:
/// what an omitted field becomes is decided in one place, the conversion
/// below, using the media module's own defaults.
pub enum MediaEndpointRequest {
    Stills { image_path: String, width: Option<u32>, height: Option<u32> },
    MediaPlayer {
        file_path: String,
        loop_playback: Option<bool>,
        width: Option<u32>,
        height: Option<u32>,
    },
    Scaler { source: String, width: Option<u32>, height: Option<u32> },
}

pub open spec fn or_width(w: Option<u32>) -> u32 {
    match w {
        Some(x) => x,
        None => media::spec_default_width(),
    }
}

pub open spec fn or_height(h: Option<u32>) -> u32 {
    match h {
        Some(x) => x,
        None => media::spec_default_height(),
    }
}

pub open spec fn or_loop(l: Option<bool>) -> bool {
    match l {
        Some(x) => x,
        None => true,
    }
}

fn width_or_default(w: Option<u32>) -> (r: u32)
    ensures
        r == or_width(w),
{
    match w {
        Some(x) => x,
        None => media::default_width(),
    }
}

fn height_or_default(h: Option<u32>) -> (r: u32)
    ensures
        r == or_height(h),
{
    match h {
        Some(x) => x,
        None => media::default_height(),
    }
}

impl From<MediaEndpointRequest> for media::Endpoint {
    fn from(req: MediaEndpointRequest) -> (e: Self) {
        match req {
            MediaEndpointRequest::Stills { image_path, width, height } => media::Endpoint::Stills {
                image_path,
                width: width_or_default(width),
                height: height_or_default(height),
            },
            MediaEndpointRequest::MediaPlayer { file_path, loop_playback, width, height } => {
                let looped = match loop_playback {
                    Some(x) => x,
                    None => media::default_loop_playback(),
                };
                media::Endpoint::MediaPlayer {
                    file_path,
                    loop_playback: looped,
                    width: width_or_default(width),
                    height: height_or_default(height),
                }
            },
            MediaEndpointRequest::Scaler { source, width, height } => media::Endpoint::Scaler {
                source,
                width: width_or_default(width),
                height: height_or_default(height),
            },
        }
    }
}

impl FromSpecImpl<MediaEndpointRequest> for media::Endpoint {
    open spec fn obeys_from_spec() -> bool {
        true
    }

    open spec fn from_spec(req: MediaEndpointRequest) -> Self {
        match req {
            MediaEndpointRequest::Stills { image_path, width, height } => media::Endpoint::Stills {
                image_path,
                width: or_width(width),
                height: or_height(height),
            },
            MediaEndpointRequest::MediaPlayer { file_path, loop_playback, width, height } =>
            media::Endpoint::MediaPlayer {
                file_path,
                loop_playback: or_loop(loop_playback),
                width: or_width(width),
                height: or_height(height),
            },
            MediaEndpointRequest::Scaler { source, width, height } => media::Endpoint::Scaler {
                source,
                width: or_width(width),
                height: or_height(height),
            },
        }
    }
}

/// The body of `POST /api/manage/sources`, dispatched by its transport tag.
/// A superset of [`EndpointRequest`]: media sources have no output side.
pub enum SourceEndpointRequest {
    Srt(SrtEndpointRequest),
    Ndi(NdiEndpointRequest),
    Omt(OmtEndpointRequest),
    Media(MediaEndpointRequest),
}

impl SourceEndpointRequest {
    pub open spec fn spec_kind(&self) -> TransportKind {
        match self {
            SourceEndpointRequest::Srt(_) => TransportKind::Srt,
            SourceEndpointRequest::Ndi(_) => TransportKind::Ndi,
            SourceEndpointRequest::Omt(_) => TransportKind::Omt,
            SourceEndpointRequest::Media(_) => TransportKind::Media,
        }
    }

    /// The kind the new source is registered under.
    pub fn kind(&self) -> (k: TransportKind)
        ensures
            k == self.spec_kind(),
    {
        match self {
            SourceEndpointRequest::Srt(_) => TransportKind::Srt,
            SourceEndpointRequest::Ndi(_) => TransportKind::Ndi,
            SourceEndpointRequest::Omt(_) => TransportKind::Omt,
            SourceEndpointRequest::Media(_) => TransportKind::Media,
        }
    }
}

/// The body of `POST /api/manage/outputs`, dispatched by its transport tag.
pub enum EndpointRequest {
    Srt(SrtEndpointRequest),
    Ndi(NdiEndpointRequest),
    Omt(OmtEndpointRequest),
}

impl EndpointRequest {
    pub open spec fn spec_kind(&self) -> TransportKind {
        match self {
            EndpointRequest::Srt(_) => TransportKind::Srt,
            EndpointRequest::Ndi(_) => TransportKind::Ndi,
            EndpointRequest::Omt(_) => TransportKind::Omt,
        }
    }

    /// The kind the new output is registered under; never `Media`.
    pub fn kind(&self) -> (k: TransportKind)
        ensures
            k == self.spec_kind(),
            k != TransportKind::Media,
    {
        match self {
            EndpointRequest::Srt(_) => TransportKind::Srt,
            EndpointRequest::Ndi(_) => TransportKind::Ndi,
            EndpointRequest::Omt(_) => TransportKind::Omt,
        }
    }
}

pub struct AddSourceRequest {
    pub id: String,
    pub endpoint: SourceEndpointRequest,
}

pub struct AddOutputRequest {
    pub id: String,
    pub endpoint: EndpointRequest,
    pub default_source: String,
}

/// Transport kinds this build can spawn: SRT always, NDI and OMT when built
/// in, and media (which needs only `ffmpeg` at run time) always, in that
/// order.
pub fn available_transports(ndi_built: bool, omt_built: bool) -> (kinds: Vec<TransportKind>)
    ensures
        kinds@ == seq![TransportKind::Srt] + (if ndi_built {
            seq![TransportKind::Ndi]
        } else {
            Seq::empty()
        }) + (if omt_built {
            seq![TransportKind::Omt]
        } else {
            Seq::empty()
        }) + seq![TransportKind::Media],
{
    let mut kinds: Vec<TransportKind> = Vec::new();
    kinds.push(TransportKind::Srt);
    if ndi_built {
        kinds.push(TransportKind::Ndi);
    }
    if omt_built {
        kinds.push(TransportKind::Omt);
    }
    kinds.push(TransportKind::Media);
    proof {
        let e = Seq::<TransportKind>::empty();
        assert(kinds@ =~= seq![TransportKind::Srt] + (if ndi_built {
            seq![TransportKind::Ndi]
        } else {
            e
        }) + (if omt_built {
            seq![TransportKind::Omt]
        } else {
            e
        }) + seq![TransportKind::Media]);
    }
    kinds
}

// ----------------------------------------------------------------- errors --

pub const STATUS_BAD_REQUEST: u16 = 400;

pub const STATUS_NOT_FOUND: u16 = 404;

pub const STATUS_CONFLICT: u16 = 409;

/// An HTTP status with the error text sent as the body's `error`.
pub struct ApiError {
    pub status: u16,
    pub error: String,
}

pub fn conflict(msg: String) -> (e: ApiError)
    ensures
        e.status == STATUS_CONFLICT,
        e.error == msg,
{
    ApiError { status: STATUS_CONFLICT, error: msg }
}

pub fn not_found(msg: String) -> (e: ApiError)
    ensures
        e.status == STATUS_NOT_FOUND,
        e.error == msg,
{
    ApiError { status: STATUS_NOT_FOUND, error: msg }
}

/// `<what> '<id>' <tail>`.
pub open spec fn quoted(what: Seq<char>, id: Seq<char>, tail: Seq<char>) -> Seq<char> {
    what + " '"@ + id + "' "@ + tail
}

fn quoted_message(what: &str, id: &str, tail: &str) -> (m: String)
    ensures
        m@ == quoted(what@, id@, tail@),
{
    let mut m = String::from_str(what);
    m.append(" '");
    m.append(id);
    m.append("' ");
    m.append(tail);
    m
}

/// Whether a new source may be added under `id`: the id must hold something
/// besides whitespace, and no source may have it already (checked against
/// the live crosspoint, so it cannot collide with a config-loaded id).
pub fn check_new_source(crosspoint: &Crosspoint, id: &str) -> (r: Result<(), ApiError>)
    ensures
        text::is_blank(id@) ==> (r matches Err(e) && e.status == STATUS_BAD_REQUEST && e.error@
            == "id must not be empty"@),
        !text::is_blank(id@) && crosspoint@.sources.contains(id@) ==> (r matches Err(e)
            && e.status == STATUS_CONFLICT && e.error@ == quoted("source"@, id@, "already exists"@)),
        !text::is_blank(id@) && !crosspoint@.sources.contains(id@) ==> r is Ok,
{
    if blank(id) {
        return Err(ApiError { status: STATUS_BAD_REQUEST, error: String::from_str("id must not be empty") });
    }
    if crosspoint.has_source(id) {
        return Err(conflict(quoted_message("source", id, "already exists")));
    }
    Ok(())
}

/// Whether a new output may be added under `id`; as for sources.
pub fn check_new_output(crosspoint: &Crosspoint, id: &str) -> (r: Result<(), ApiError>)
    ensures
        text::is_blank(id@) ==> (r matches Err(e) && e.status == STATUS_BAD_REQUEST && e.error@
            == "id must not be empty"@),
        !text::is_blank(id@) && crosspoint@.routes.contains_key(id@) ==> (r matches Err(e)
            && e.status == STATUS_CONFLICT && e.error@ == quoted("output"@, id@, "already exists"@)),
        !text::is_blank(id@) && !crosspoint@.routes.contains_key(id@) ==> r is Ok,
{
    if blank(id) {
        return Err(ApiError { status: STATUS_BAD_REQUEST, error: String::from_str("id must not be empty") });
    }
    if crosspoint.has_output(id) {
        return Err(conflict(quoted_message("output", id, "already exists")));
    }
    Ok(())
}

/// `DELETE /api/manage/sources/:id`: forgets the entry, deregisters the id
/// from the crosspoint, and hands back the token of the source's task, the
/// one it was inserted with, for the caller to cancel; an unknown id is not
/// found and changes nothing.
pub fn remove_source(crosspoint: &mut Crosspoint, registry: &mut Registry, id: &str) -> (r: Result<
    CancellationToken,
    ApiError,
>)
    ensures
        old(registry)@.sources.contains_key(id@) ==> {
            &&& r matches Ok(token) && token == old(registry).source_entries()[id@].cancel
            &&& final(registry)@.sources == old(registry)@.sources.remove(id@)
            &&& final(registry)@.outputs == old(registry)@.outputs
            &&& final(crosspoint)@ == old(crosspoint)@.without_source(id@)
        },
        !old(registry)@.sources.contains_key(id@) ==> {
            &&& r matches Err(e) && e.status == STATUS_NOT_FOUND && e.error@ == quoted(
                "source"@,
                id@,
                "not found"@,
            )
            &&& final(registry)@ == old(registry)@
            &&& final(crosspoint)@ == old(crosspoint)@
        },
{
    match registry.remove_source(id) {
        Some(entry) => {
            crosspoint.deregister_source(id);
            Ok(entry.cancel)
        },
        None => {
            proof {
                assert(registry@.sources =~= old(registry)@.sources);
            }
            Err(not_found(quoted_message("source", id, "not found")))
        },
    }
}

/// `DELETE /api/manage/outputs/:id`, as for sources.
pub fn remove_output(crosspoint: &mut Crosspoint, registry: &mut Registry, id: &str) -> (r: Result<
    CancellationToken,
    ApiError,
>)
    ensures
        old(registry)@.outputs.contains_key(id@) ==> {
            &&& r matches Ok(token) && token == old(registry).output_entries()[id@].cancel
            &&& final(registry)@.outputs == old(registry)@.outputs.remove(id@)
            &&& final(registry)@.sources == old(registry)@.sources
            &&& final(crosspoint)@ == old(crosspoint)@.without_output(id@)
        },
        !old(registry)@.outputs.contains_key(id@) ==> {
            &&& r matches Err(e) && e.status == STATUS_NOT_FOUND && e.error@ == quoted(
                "output"@,
                id@,
                "not found"@,
            )
            &&& final(registry)@ == old(registry)@
            &&& final(crosspoint)@ == old(crosspoint)@
        },
{
    match registry.remove_output(id) {
        Some(entry) => {
            crosspoint.deregister_output(id);
            Ok(entry.cancel)
        },
        None => {
            proof {
                assert(registry@.outputs =~= old(registry)@.outputs);
            }
            Err(not_found(quoted_message("output", id, "not found")))
        },
    }
}

// ---------------------------------------------------------------- listing --

/// One row of `GET /api/manage/sources` or `/outputs`.
pub struct ManageEntry {
    pub id: String,
    pub kind: TransportKind,
}

pub open spec fn entries_view(v: Seq<ManageEntry>) -> Seq<(Seq<char>, TransportKind)> {
    v.map_values(|e: ManageEntry| (e.id@, e.kind))
}

/// Strictly increasing ids.
pub open spec fn sorted_by_id(s: Seq<(Seq<char>, TransportKind)>) -> bool {
    forall|i: int, j: int| 0 <= i < j < s.len() ==> text::lex_lt(s[i].0, s[j].0)
}

/// The entries of a listing, sorted by id.
fn sort_by_id(items: Vec<(String, TransportKind)>) -> (out: Vec<ManageEntry>)
    requires
        crate::assoc::keys_distinct(crate::registry::listing_view(items@)),
    ensures
        sorted_by_id(entries_view(out@)),
        crate::assoc::keys_distinct(entries_view(out@)),
        crate::assoc::assoc_map(entries_view(out@)) == crate::assoc::assoc_map(
            crate::registry::listing_view(items@),
        ),
{
    let ghost all = crate::registry::listing_view(items@);
    let mut out: Vec<ManageEntry> = Vec::new();
    let mut i: usize = 0;
    proof {
        crate::assoc::lemma_assoc_empty(entries_view(out@));
        crate::assoc::lemma_assoc_empty(all.take(0));
    }
    while i < items.len()
        invariant
            i <= items@.len(),
            all == crate::registry::listing_view(items@),
            crate::assoc::keys_distinct(all),
            sorted_by_id(entries_view(out@)),
            crate::assoc::keys_distinct(entries_view(out@)),
            crate::assoc::assoc_map(entries_view(out@)) == crate::assoc::assoc_map(
                all.take(i as int),
            ),
        decreases items@.len() - i,
    {
        let id = items[i].0.clone();
        let kind = items[i].1;
        let ghost key = id@;
        let ghost before = entries_view(out@);
        proof {
            assert(all[i as int] == (key, kind));
            // the key is new: it is not among the first `i` entries
            if crate::assoc::has_key(before, key) {
                let j = choose|j: int| 0 <= j < before.len() && before[j].0 == key;
                crate::assoc::lemma_assoc_at(before, j);
                assert(crate::assoc::assoc_map(all.take(i as int)).contains_key(key));
                let m = choose|m: int|
                    0 <= m < all.take(i as int).len() && all.take(i as int)[m].0 == key;
                assert(all[m].0 == all[i as int].0);
            }
        }
        let mut pos: usize = 0;
        while pos < out.len() && !less_than(id.as_str(), out[pos].id.as_str())
            invariant
                pos <= out@.len(),
                id@ == key,
                entries_view(out@) == before,
                forall|m: int| 0 <= m < pos ==> !text::lex_lt(key, #[trigger] before[m].0),
            decreases out@.len() - pos,
        {
            proof {
                assert(before[pos as int].0 == out@[pos as int].id@);
            }
            pos = pos + 1;
        }
        proof {
            assert forall|m: int| 0 <= m < pos implies text::lex_lt(#[trigger] before[m].0, key) by {
                text::lemma_lex_total(key, before[m].0);
                if before[m].0 == key {
                    assert(crate::assoc::has_key(before, key));
                }
            }
            if pos < before.len() {
                assert(text::lex_lt(key, before[pos as int].0));
                assert forall|m: int| pos <= m < before.len() implies text::lex_lt(
                    key,
                    #[trigger] before[m].0,
                ) by {
                    if m > pos {
                        text::lemma_lex_transitive(key, before[pos as int].0, before[m].0);
                    }
                }
            }
            crate::assoc::lemma_assoc_insert_at(before, pos as int, key, kind);
        }
        out.insert(pos, ManageEntry { id, kind });
        proof {
            let after = entries_view(out@);
            assert(after =~= before.insert(pos as int, (key, kind)));
            assert forall|a: int, b: int| 0 <= a < b < after.len() implies text::lex_lt(
                after[a].0,
                after[b].0,
            ) by {
                if b < pos {
                } else if a < pos && b == pos {
                } else if a < pos && b > pos {
                    text::lemma_lex_transitive(before[a].0, key, before[b - 1].0);
                } else if a == pos {
                } else {
                    assert(after[a] == before[a - 1]);
                    assert(after[b] == before[b - 1]);
                }
            }
            assert(all.take(i + 1) =~= all.take(i as int).push((key, kind)));
            crate::assoc::lemma_assoc_push(all.take(i as int), key, kind);
        }
        i = i + 1;
    }
    proof {
        assert(all.take(i as int) =~= all);
    }
    out
}

/// `GET /api/manage/sources`: every running source with its kind, sorted by
/// id.
pub fn list_sources(registry: &Registry) -> (out: Vec<ManageEntry>)
    ensures
        sorted_by_id(entries_view(out@)),
        crate::assoc::keys_distinct(entries_view(out@)),
        crate::assoc::assoc_map(entries_view(out@)) == registry@.sources,
{
    sort_by_id(registry.sources())
}

/// `GET /api/manage/outputs`: every running output with its kind, sorted by
/// id.
pub fn list_outputs(registry: &Registry) -> (out: Vec<ManageEntry>)
    ensures
        sorted_by_id(entries_view(out@)),
        crate::assoc::keys_distinct(entries_view(out@)),
        crate::assoc::assoc_map(entries_view(out@)) == registry@.outputs,
{
    sort_by_id(registry.outputs())
}

// ------------------------------------------------------------------ laws --

/// Converting a media request keeps everything it gives: the path or the
/// source, the loop flag, and each size it names; only an omitted size
/// (1280 wide, 720 high) or loop flag (looping) is filled in.
pub proof fn law_media_request_keeps_what_it_gives(req: MediaEndpointRequest)
    ensures
        ({
            let e = <media::Endpoint as vstd::std_specs::convert::FromSpec<MediaEndpointRequest>>::from_spec(req);
            match req {
                MediaEndpointRequest::Stills { image_path, width, height } => {
                    &&& e matches media::Endpoint::Stills { image_path: p, width: w, height: h }
                    &&& p == image_path
                    &&& (width matches Some(x) ==> w == x) && (width is None ==> w == 1280)
                    &&& (height matches Some(x) ==> h == x) && (height is None ==> h == 720)
                },
                MediaEndpointRequest::MediaPlayer { file_path, loop_playback, width, height } => {
                    &&& e matches media::Endpoint::MediaPlayer {
                        file_path: p,
                        loop_playback: l,
                        width: w,
                        height: h,
                    }
                    &&& p == file_path
                    &&& (loop_playback matches Some(x) ==> l == x) && (loop_playback is None ==> l)
                    &&& (width matches Some(x) ==> w == x) && (width is None ==> w == 1280)
                    &&& (height matches Some(x) ==> h == x) && (height is None ==> h == 720)
                },
                MediaEndpointRequest::Scaler { source, width, height } => {
                    &&& e matches media::Endpoint::Scaler { source: src, width: w, height: h }
                    &&& src == source
                    &&& (width matches Some(x) ==> w == x) && (width is None ==> w == 1280)
                    &&& (height matches Some(x) ==> h == x) && (height is None ==> h == 720)
                },
            }
        }),
{
}

} // verus!
