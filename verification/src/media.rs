//! Special-purpose, non-relay sources: a looped still image, a local media
//! file, and a scaler tap that decodes/rescales/re-encodes another source.
//! Each runs `ffmpeg` as a child process and publishes its MPEG-TS output in
//! packet-aligned chunks; this module holds what that needs to decide.

use crate::text;
use crate::text::{concat2, decimal_string, owned, strings_view};
use vstd::prelude::*;

verus! {

/// How a media source generates its content.
pub enum Endpoint {
    /// Loop a static image, encoded as a continuous MPEG-TS stream.
    Stills { image_path: String, width: u32, height: u32 },
    /// Play a local media file into the crosspoint as a source.
    MediaPlayer { file_path: String, loop_playback: bool, width: u32, height: u32 },
    /// Decode another registered source, rescale it, and re-encode the
    /// result as a new source: the one case here that transcodes.
    Scaler { source: String, width: u32, height: u32 },
}

pub open spec fn spec_default_width() -> u32 {
    1280
}

pub open spec fn spec_default_height() -> u32 {
    720
}

/// The width a media source gets when none is given.
pub fn default_width() -> (w: u32)
    ensures
        w == spec_default_width(),
{
    1280
}

/// The height a media source gets when none is given.
pub fn default_height() -> (h: u32)
    ensures
        h == spec_default_height(),
{
    720
}

/// A media player loops unless told otherwise.
pub fn default_loop_playback() -> (b: bool)
    ensures
        b == true,
{
    true
}

impl Endpoint {
    /// Only the scaler reads from ffmpeg's stdin (its upstream's bytes).
    pub open spec fn spec_needs_stdin(&self) -> bool {
        self is Scaler
    }

    pub fn needs_stdin(&self) -> (b: bool)
        ensures
            b == self.spec_needs_stdin(),
    {
        match self {
            Endpoint::Scaler { .. } => true,
            _ => false,
        }
    }

    pub open spec fn dims(&self) -> (u32, u32) {
        match self {
            Endpoint::Stills { width, height, .. } => (*width, *height),
            Endpoint::MediaPlayer { width, height, .. } => (*width, *height),
            Endpoint::Scaler { width, height, .. } => (*width, *height),
        }
    }
}

/// ffmpeg's input arguments for an endpoint.
pub open spec fn input_args(e: &Endpoint) -> Seq<Seq<char>> {
    match e {
        Endpoint::Stills { image_path, .. } => seq!["-loop"@, "1"@, "-i"@, image_path@],
        Endpoint::MediaPlayer { file_path, loop_playback, .. } => if *loop_playback {
            seq!["-stream_loop"@, "-1"@, "-i"@, file_path@]
        } else {
            seq!["-i"@, file_path@]
        },
        Endpoint::Scaler { .. } => seq!["-f"@, "mpegts"@, "-i"@, "pipe:0"@],
    }
}

/// The scale filter for a frame size: `scale=W:H`.
pub open spec fn scale_filter(width: u32, height: u32) -> Seq<char> {
    "scale="@ + text::decimal(width as nat) + ":"@ + text::decimal(height as nat)
}

/// The full ffmpeg command line (without the program name): quiet logging,
/// real-time pacing, the endpoint's input, then an H.264/AAC MPEG-TS encode
/// at 25 fps scaled to the endpoint's size, written to stdout.
pub open spec fn ffmpeg_args_spec(e: &Endpoint) -> Seq<Seq<char>> {
    seq!["-loglevel"@, "error"@, "-re"@] + input_args(e) + seq![
        "-vf"@,
        scale_filter(e.dims().0, e.dims().1),
        "-r"@,
        "25"@,
        "-c:v"@,
        "libx264"@,
        "-preset"@,
        "veryfast"@,
        "-pix_fmt"@,
        "yuv420p"@,
        "-g"@,
        "50"@,
        "-c:a"@,
        "aac"@,
        "-b:a"@,
        "128k"@,
        "-f"@,
        "mpegts"@,
        "pipe:1"@,
    ]
}

fn push_str(args: &mut Vec<String>, s: &str)
    ensures
        strings_view(final(args)@) == strings_view(old(args)@).push(s@),
{
    let ghost before = args@;
    args.push(owned(s));
    proof {
        assert(strings_view(args@) =~= strings_view(before).push(s@));
    }
}

pub fn ffmpeg_args(endpoint: &Endpoint) -> (args: Vec<String>)
    ensures
        strings_view(args@) == ffmpeg_args_spec(endpoint),
{
    let mut args: Vec<String> = Vec::new();
    push_str(&mut args, "-loglevel");
    push_str(&mut args, "error");
    push_str(&mut args, "-re");
    let (width, height) = match endpoint {
        Endpoint::Stills { image_path, width, height } => {
            push_str(&mut args, "-loop");
            push_str(&mut args, "1");
            push_str(&mut args, "-i");
            push_str(&mut args, image_path.as_str());
            (*width, *height)
        },
        Endpoint::MediaPlayer { file_path, loop_playback, width, height } => {
            if *loop_playback {
                push_str(&mut args, "-stream_loop");
                push_str(&mut args, "-1");
            }
            push_str(&mut args, "-i");
            push_str(&mut args, file_path.as_str());
            (*width, *height)
        },
        Endpoint::Scaler { width, height, .. } => {
            push_str(&mut args, "-f");
            push_str(&mut args, "mpegts");
            push_str(&mut args, "-i");
            push_str(&mut args, "pipe:0");
            (*width, *height)
        },
    };
    let w = decimal_string(width as u64);
    let h = decimal_string(height as u64);
    let scale = concat2(concat2(concat2("scale=", w.as_str()).as_str(), ":").as_str(), h.as_str());
    push_str(&mut args, "-vf");
    push_str(&mut args, scale.as_str());
    push_str(&mut args, "-r");
    push_str(&mut args, "25");
    push_str(&mut args, "-c:v");
    push_str(&mut args, "libx264");
    push_str(&mut args, "-preset");
    push_str(&mut args, "veryfast");
    push_str(&mut args, "-pix_fmt");
    push_str(&mut args, "yuv420p");
    push_str(&mut args, "-g");
    push_str(&mut args, "50");
    push_str(&mut args, "-c:a");
    push_str(&mut args, "aac");
    push_str(&mut args, "-b:a");
    push_str(&mut args, "128k");
    push_str(&mut args, "-f");
    push_str(&mut args, "mpegts");
    push_str(&mut args, "pipe:1");
    assert(strings_view(args@) =~= ffmpeg_args_spec(endpoint));
    args
}

// ------------------------------------------------------------- chunking --

/// MPEG-TS packets are 188 bytes; ffmpeg's output is republished in chunks of
/// this many packets (1316 bytes), the conventional SRT payload alignment.
pub const TS_PACKET_LEN: usize = 188;

pub const CHUNK_PACKETS: usize = 7;

pub const CHUNK_LEN: usize = 1316;

/// The bytes of each chunk in turn.
pub open spec fn flatten(chunks: Seq<Seq<u8>>) -> Seq<u8>
    decreases chunks.len(),
{
    if chunks.len() == 0 {
        Seq::empty()
    } else {
        flatten(chunks.drop_last()) + chunks.last()
    }
}

pub open spec fn chunks_view(v: Seq<Vec<u8>>) -> Seq<Seq<u8>> {
    v.map_values(|c: Vec<u8>| c@)
}

/// Splits every whole chunk off the front of `buf`, in order, leaving the
/// bytes of an incomplete chunk behind for the next read to complete.
pub fn take_chunks(buf: &mut Vec<u8>) -> (chunks: Vec<Vec<u8>>)
    ensures
        chunks@.len() == old(buf)@.len() as int / (CHUNK_LEN as int),
        forall|k: int|
            0 <= k < chunks@.len() ==> (#[trigger] chunks@[k])@ == old(buf)@.subrange(
                k * CHUNK_LEN,
                (k + 1) * CHUNK_LEN,
            ),
        final(buf)@ == old(buf)@.skip(chunks@.len() * CHUNK_LEN),
        final(buf)@.len() < CHUNK_LEN,
        flatten(chunks_view(chunks@)) + final(buf)@ == old(buf)@,
{
    let ghost input = buf@;
    let n = buf.len();
    let mut chunks: Vec<Vec<u8>> = Vec::new();
    let mut off: usize = 0;
    while n - off >= CHUNK_LEN
        invariant
            buf@ == input,
            n == input.len(),
            off <= n,
            off == chunks@.len() * CHUNK_LEN,
            forall|k: int|
                0 <= k < chunks@.len() ==> (#[trigger] chunks@[k])@ == input.subrange(
                    k * CHUNK_LEN,
                    (k + 1) * CHUNK_LEN,
                ),
            flatten(chunks_view(chunks@)) == input.take(off as int),
        decreases n - off,
    {
        let chunk = crate::wire::copy_range(buf.as_slice(), off, CHUNK_LEN);
        let ghost before = chunks@;
        chunks.push(chunk);
        proof {
            assert(chunks_view(chunks@).drop_last() =~= chunks_view(before));
            assert(input.take(off + CHUNK_LEN) =~= input.take(off as int) + input.subrange(
                off as int,
                off + CHUNK_LEN,
            ));
        }
        off = off + CHUNK_LEN;
    }
    let rest = crate::wire::copy_range(buf.as_slice(), off, n - off);
    *buf = rest;
    proof {
        assert(buf@ =~= input.skip(off as int));
        assert(input.take(off as int) + input.skip(off as int) =~= input);
        assert(chunks@.len() == input.len() as int / (CHUNK_LEN as int)) by (nonlinear_arith)
            requires
                off == chunks@.len() * 1316,
                input.len() - off < 1316,
                off <= input.len(),
        ;
    }
    chunks
}

/// Splitting and rejoining lose nothing: the chunks, in order, followed by
/// what was left, are exactly the bytes that were buffered.
pub proof fn law_chunks_rejoin(chunks: Seq<Seq<u8>>, rest: Seq<u8>, input: Seq<u8>)
    requires
        chunks.len() == input.len() as int / (CHUNK_LEN as int),
        forall|k: int|
            0 <= k < chunks.len() ==> #[trigger] chunks[k] == input.subrange(
                k * CHUNK_LEN,
                (k + 1) * CHUNK_LEN,
            ),
        rest == input.skip(chunks.len() * CHUNK_LEN),
    ensures
        flatten(chunks) + rest == input,
        forall|k: int| 0 <= k < chunks.len() ==> (#[trigger] chunks[k]).len() == CHUNK_LEN,
        rest.len() < CHUNK_LEN,
    decreases chunks.len(),
{
    let n = chunks.len();
    assert(n * CHUNK_LEN <= input.len() && input.len() - n * CHUNK_LEN < CHUNK_LEN) by (
    nonlinear_arith)
        requires
            n == input.len() / 1316,
            input.len() >= 0,
    ;
    lemma_flatten_prefix(chunks, input);
    assert(input.take(n * CHUNK_LEN) + input.skip(n * CHUNK_LEN) =~= input);
    assert forall|k: int| 0 <= k < chunks.len() implies (#[trigger] chunks[k]).len() == CHUNK_LEN by {
        assert((k + 1) * 1316 <= n * 1316) by (nonlinear_arith)
            requires
                k + 1 <= n,
        ;
    }
}

proof fn lemma_flatten_prefix(chunks: Seq<Seq<u8>>, input: Seq<u8>)
    requires
        chunks.len() * CHUNK_LEN <= input.len(),
        forall|k: int|
            0 <= k < chunks.len() ==> #[trigger] chunks[k] == input.subrange(
                k * CHUNK_LEN,
                (k + 1) * CHUNK_LEN,
            ),
    ensures
        flatten(chunks) == input.take(chunks.len() * CHUNK_LEN),
    decreases chunks.len(),
{
    let n = chunks.len();
    if n == 0 {
        assert(input.take(0) =~= Seq::<u8>::empty());
    } else {
        let m = (n - 1) as int;
        assert(m * 1316 + 1316 == n * 1316) by (nonlinear_arith)
            requires
                m == n - 1,
        ;
        assert forall|k: int| 0 <= k < chunks.drop_last().len() implies #[trigger] chunks.drop_last()[k]
            == input.subrange(k * CHUNK_LEN, (k + 1) * CHUNK_LEN) by {
            assert(chunks.drop_last()[k] == chunks[k]);
        }
        lemma_flatten_prefix(chunks.drop_last(), input);
        assert(chunks[m] == input.subrange(m * CHUNK_LEN, (m + 1) * CHUNK_LEN));
        assert(input.take(m * CHUNK_LEN) + input.subrange(m * CHUNK_LEN, n * CHUNK_LEN) =~= input.take(
            n * CHUNK_LEN,
        ));
    }
}

// ------------------------------------------------------------ supervision --

/// What happened to a media source's ffmpeg child.
#[derive(Debug, Clone, Copy, PartialEq, Eq, Structural)]
pub enum MediaEvent {
    /// ffmpeg could not be started.
    SpawnFailed,
    /// ffmpeg started; for a scaler, whether its upstream source was found
    /// to feed it.
    Spawned { upstream_found: bool },
    /// ffmpeg's output ended (it exited, or its output failed).
    Ended,
}

/// What the source's supervising loop does next.
#[derive(Debug, Clone, Copy, PartialEq, Eq, Structural)]
pub enum MediaAction {
    /// Publish ffmpeg's output until it ends.
    Relay,
    /// Stop the child if it runs, wait the reconnect delay, and start again.
    Retry,
    /// Stop for good.
    Stop,
}

pub open spec fn media_action_spec(needs_stdin: bool, cancelled: bool, event: MediaEvent) -> MediaAction {
    if cancelled {
        MediaAction::Stop
    } else {
        match event {
            MediaEvent::SpawnFailed => MediaAction::Retry,
            MediaEvent::Spawned { upstream_found } => if needs_stdin && !upstream_found {
                MediaAction::Retry
            } else {
                MediaAction::Relay
            },
            MediaEvent::Ended => MediaAction::Retry,
        }
    }
}

/// A media source stops once cancelled; otherwise a failed start, a scaler
/// whose upstream source is missing (treated like a failed connect) and an
/// ended ffmpeg are all retried after the delay, and a started ffmpeg is
/// relayed.
pub fn media_step(endpoint: &Endpoint, cancelled: bool, event: MediaEvent) -> (a: MediaAction)
    ensures
        a == media_action_spec(endpoint.spec_needs_stdin(), cancelled, event),
{
    if cancelled {
        return MediaAction::Stop;
    }
    match event {
        MediaEvent::SpawnFailed => MediaAction::Retry,
        MediaEvent::Spawned { upstream_found } => {
            if endpoint.needs_stdin() && !upstream_found {
                MediaAction::Retry
            } else {
                MediaAction::Relay
            }
        },
        MediaEvent::Ended => MediaAction::Retry,
    }
}

// ------------------------------------------------------------------ laws --

/// ffmpeg scales every kind of media source to the endpoint's own size: the
/// option just before the fixed encoder settings is `-vf scale=W:H`, with W
/// the endpoint's width and H its height, in that order.
pub proof fn law_scale_is_width_then_height(e: &Endpoint)
    ensures
        ({
            let args = ffmpeg_args_spec(e);
            let (w, h) = match e {
                Endpoint::Stills { width, height, .. } => (*width, *height),
                Endpoint::MediaPlayer { width, height, .. } => (*width, *height),
                Endpoint::Scaler { width, height, .. } => (*width, *height),
            };
            &&& args.len() >= 21
            &&& args[args.len() - 19] == "-vf"@
            &&& args[args.len() - 18] == "scale="@ + text::decimal(w as nat) + ":"@ + text::decimal(
                h as nat,
            )
        }),
{
    let args = ffmpeg_args_spec(e);
    let head = seq!["-loglevel"@, "error"@, "-re"@] + input_args(e);
    assert(args.len() == head.len() + 19);
    assert(args[args.len() - 19] == "-vf"@);
    assert(args[args.len() - 18] == scale_filter(e.dims().0, e.dims().1));
}

} // verus!
