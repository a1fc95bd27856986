//! Wire format for one NDI frame (video, audio, or metadata) as an opaque
//! byte blob, so it can travel through the crosspoint's payload-agnostic
//! channel exactly like an SRT relay chunk does.
//!
//! Layout, all integers big-endian: one kind byte, then the frame's fixed
//! fields in declaration order, then a `u32` payload length and the payload.
//! The line stride is carried verbatim, so a padded source round-trips
//! byte-exactly.

use crate::ndi::frames::{
    AudioFrame, AudioFrameView, FrameView, MetadataFrame, MetadataFrameView, VideoFrame,
    VideoFrameView,
};
use crate::text::string_from_utf8;
use crate::wire;
use crate::wire::{copy_range, get_i32, get_i64, get_u32, put_i32, put_i64, put_u32};
use vstd::prelude::*;
use vstd::utf8::*;

verus! {

broadcast use {encode_utf8_valid_utf8, encode_utf8_decode_utf8};

pub const KIND_VIDEO: u8 = 0;

pub const KIND_AUDIO: u8 = 1;

pub const KIND_METADATA: u8 = 2;

/// Fixed video fields after the kind byte: eight 4-byte fields, the 8-byte
/// timecode and the 4-byte payload length.
pub const VIDEO_HEADER_LEN: usize = 44;

/// Fixed audio fields after the kind byte: three 4-byte fields, the 8-byte
/// timecode and the 4-byte sample count.
pub const AUDIO_HEADER_LEN: usize = 24;

/// Fixed metadata fields after the kind byte: the 8-byte timecode and the
/// 4-byte text length.
pub const METADATA_HEADER_LEN: usize = 12;

#[derive(Debug, Clone, Copy, PartialEq, Eq, Structural)]
pub enum EnvelopeError {
    Truncated,
    UnknownKind(u8),
    BadMetadata,
}

impl EnvelopeError {
    pub open spec fn spec_message(self) -> Seq<char> {
        match self {
            EnvelopeError::Truncated => "envelope truncated"@,
            EnvelopeError::UnknownKind(k) => "unknown frame kind byte "@ + crate::text::decimal(
                k as nat,
            ),
            EnvelopeError::BadMetadata => "invalid utf-8 metadata"@,
        }
    }

    /// The error's text.
    pub fn message(&self) -> (m: String)
        ensures
            m@ == self.spec_message(),
    {
        match self {
            EnvelopeError::Truncated => String::from_str("envelope truncated"),
            EnvelopeError::UnknownKind(k) => crate::text::concat2(
                "unknown frame kind byte ",
                crate::text::decimal_string(*k as u64).as_str(),
            ),
            EnvelopeError::BadMetadata => String::from_str("invalid utf-8 metadata"),
        }
    }
}

/// A frame decoded from an envelope.
pub enum DecodedFrame {
    Video(VideoFrame),
    Audio(AudioFrame),
    Metadata(MetadataFrame),
}

impl View for DecodedFrame {
    type V = FrameView;

    open spec fn view(&self) -> FrameView {
        match self {
            DecodedFrame::Video(f) => FrameView::Video(f@),
            DecodedFrame::Audio(f) => FrameView::Audio(f@),
            DecodedFrame::Metadata(f) => FrameView::Metadata(f@),
        }
    }
}

pub open spec fn decoded_view(r: Result<DecodedFrame, EnvelopeError>) -> Result<
    FrameView,
    EnvelopeError,
> {
    match r {
        Ok(f) => Ok(f@),
        Err(e) => Err(e),
    }
}

// ------------------------------------------------------------- encoding --

pub open spec fn video_body(f: VideoFrameView) -> Seq<u8> {
    wire::be_i32(f.xres) + (wire::be_i32(f.yres) + (wire::be_u32(f.four_cc) + (wire::be_i32(f.frame_rate_n) + (wire::be_i32(
        f.frame_rate_d,
    ) + (wire::be_u32(f.picture_aspect_ratio_bits) + (wire::be_i32(f.frame_format_type) + (wire::be_i32(
        f.line_stride_in_bytes,
    ) + (wire::be_i64(f.timecode) + (wire::be_u32(f.data.len() as u32) + f.data)))))))))
}

/// The envelope of a video frame.
pub open spec fn video_envelope(f: VideoFrameView) -> Seq<u8> {
    seq![KIND_VIDEO] + video_body(f)
}

pub open spec fn audio_body(f: AudioFrameView) -> Seq<u8> {
    wire::be_i32(f.sample_rate) + (wire::be_i32(f.no_channels) + (wire::be_i32(f.no_samples) + (wire::be_i64(f.timecode)
        + (wire::be_u32(f.data.len() as u32) + wire::be_u32s(f.data)))))
}

/// The envelope of an audio frame.
pub open spec fn audio_envelope(f: AudioFrameView) -> Seq<u8> {
    seq![KIND_AUDIO] + audio_body(f)
}

pub open spec fn metadata_body(f: MetadataFrameView) -> Seq<u8> {
    wire::be_i64(f.timecode) + (wire::be_u32(encode_utf8(f.data).len() as u32) + encode_utf8(f.data))
}

/// The envelope of a metadata frame: its text travels as UTF-8.
pub open spec fn metadata_envelope(f: MetadataFrameView) -> Seq<u8> {
    seq![KIND_METADATA] + metadata_body(f)
}

pub fn encode_video(frame: &VideoFrame) -> (out: Vec<u8>)
    ensures
        out@ == video_envelope(frame@),
{
    let mut buf: Vec<u8> = Vec::new();
    buf.push(KIND_VIDEO);
    put_i32(&mut buf, frame.xres);
    put_i32(&mut buf, frame.yres);
    put_u32(&mut buf, frame.four_cc);
    put_i32(&mut buf, frame.frame_rate_n);
    put_i32(&mut buf, frame.frame_rate_d);
    put_u32(&mut buf, frame.picture_aspect_ratio_bits);
    put_i32(&mut buf, frame.frame_format_type);
    // Carried, not recomputed: this is what makes a padded source round-trip.
    put_i32(&mut buf, frame.line_stride_in_bytes);
    put_i64(&mut buf, frame.timecode);
    put_u32(&mut buf, frame.data.len() as u32);
    buf.extend_from_slice(frame.data.as_slice());
    assert(buf@ =~= video_envelope(frame@));
    buf
}

pub fn encode_audio(frame: &AudioFrame) -> (out: Vec<u8>)
    ensures
        out@ == audio_envelope(frame@),
{
    let mut buf: Vec<u8> = Vec::new();
    buf.push(KIND_AUDIO);
    put_i32(&mut buf, frame.sample_rate);
    put_i32(&mut buf, frame.no_channels);
    put_i32(&mut buf, frame.no_samples);
    put_i64(&mut buf, frame.timecode);
    put_u32(&mut buf, frame.data.len() as u32);
    let ghost head = buf@;
    let mut k: usize = 0;
    while k < frame.data.len()
        invariant
            k <= frame.data@.len(),
            buf@ == head + wire::be_u32s(frame.data@.take(k as int)),
        decreases frame.data@.len() - k,
    {
        put_u32(&mut buf, frame.data[k]);
        proof {
            let t = frame.data@.take(k + 1);
            assert(t.drop_last() =~= frame.data@.take(k as int));
        }
        k = k + 1;
    }
    assert(frame.data@.take(k as int) =~= frame.data@);
    assert(buf@ =~= audio_envelope(frame@));
    buf
}

pub fn encode_metadata(frame: &MetadataFrame) -> (out: Vec<u8>)
    ensures
        out@ == metadata_envelope(frame@),
{
    let data = frame.data.as_str().as_bytes();
    let mut buf: Vec<u8> = Vec::new();
    buf.push(KIND_METADATA);
    put_i64(&mut buf, frame.timecode);
    put_u32(&mut buf, data.len() as u32);
    buf.extend_from_slice(data);
    assert(buf@ =~= metadata_envelope(frame@));
    buf
}

// ------------------------------------------------------------- decoding --

/// What decoding the bytes after a video kind byte gives.
pub open spec fn decode_video_body(r: Seq<u8>) -> Result<VideoFrameView, EnvelopeError> {
    if r.len() < VIDEO_HEADER_LEN {
        Err(EnvelopeError::Truncated)
    } else {
        let len = wire::u32_at(r, 40) as int;
        if r.len() - VIDEO_HEADER_LEN < len {
            Err(EnvelopeError::Truncated)
        } else {
            Ok(
                VideoFrameView {
                    xres: wire::i32_at(r, 0),
                    yres: wire::i32_at(r, 4),
                    four_cc: wire::u32_at(r, 8),
                    frame_rate_n: wire::i32_at(r, 12),
                    frame_rate_d: wire::i32_at(r, 16),
                    picture_aspect_ratio_bits: wire::u32_at(r, 20),
                    frame_format_type: wire::i32_at(r, 24),
                    line_stride_in_bytes: wire::i32_at(r, 28),
                    timecode: wire::i64_at(r, 32),
                    data: r.subrange(44, 44 + len),
                },
            )
        }
    }
}

/// What decoding the bytes after an audio kind byte gives.
pub open spec fn decode_audio_body(r: Seq<u8>) -> Result<AudioFrameView, EnvelopeError> {
    if r.len() < AUDIO_HEADER_LEN {
        Err(EnvelopeError::Truncated)
    } else {
        let len = wire::u32_at(r, 20) as int;
        if r.len() - AUDIO_HEADER_LEN < 4 * len {
            Err(EnvelopeError::Truncated)
        } else {
            Ok(
                AudioFrameView {
                    sample_rate: wire::i32_at(r, 0),
                    no_channels: wire::i32_at(r, 4),
                    no_samples: wire::i32_at(r, 8),
                    timecode: wire::i64_at(r, 12),
                    data: Seq::new(len as nat, |k: int| wire::u32_at(r, 24 + 4 * k)),
                },
            )
        }
    }
}

/// What decoding the bytes after a metadata kind byte gives.
pub open spec fn decode_metadata_body(r: Seq<u8>) -> Result<MetadataFrameView, EnvelopeError> {
    if r.len() < METADATA_HEADER_LEN {
        Err(EnvelopeError::Truncated)
    } else {
        let len = wire::u32_at(r, 8) as int;
        if r.len() - METADATA_HEADER_LEN < len {
            Err(EnvelopeError::Truncated)
        } else {
            let text = r.subrange(12, 12 + len);
            if valid_utf8(text) {
                Ok(MetadataFrameView { timecode: wire::i64_at(r, 0), data: decode_utf8(text) })
            } else {
                Err(EnvelopeError::BadMetadata)
            }
        }
    }
}

/// What decoding an envelope gives: the kind byte selects the frame kind,
/// a short envelope is `Truncated`, an unknown kind byte is reported, and
/// metadata that is not UTF-8 is `BadMetadata`. Bytes after the payload are
/// ignored.
pub open spec fn decode_spec(b: Seq<u8>) -> Result<FrameView, EnvelopeError> {
    if b.len() == 0 {
        Err(EnvelopeError::Truncated)
    } else {
        let r = b.skip(1);
        if b[0] == KIND_VIDEO {
            match decode_video_body(r) {
                Ok(f) => Ok(FrameView::Video(f)),
                Err(e) => Err(e),
            }
        } else if b[0] == KIND_AUDIO {
            match decode_audio_body(r) {
                Ok(f) => Ok(FrameView::Audio(f)),
                Err(e) => Err(e),
            }
        } else if b[0] == KIND_METADATA {
            match decode_metadata_body(r) {
                Ok(f) => Ok(FrameView::Metadata(f)),
                Err(e) => Err(e),
            }
        } else {
            Err(EnvelopeError::UnknownKind(b[0]))
        }
    }
}

pub fn decode(bytes: &[u8]) -> (r: Result<DecodedFrame, EnvelopeError>)
    ensures
        decoded_view(r) == decode_spec(bytes@),
{
    if bytes.len() == 0 {
        return Err(EnvelopeError::Truncated);
    }
    let kind = bytes[0];
    if kind == KIND_VIDEO {
        match decode_video(bytes) {
            Ok(f) => Ok(DecodedFrame::Video(f)),
            Err(e) => Err(e),
        }
    } else if kind == KIND_AUDIO {
        match decode_audio(bytes) {
            Ok(f) => Ok(DecodedFrame::Audio(f)),
            Err(e) => Err(e),
        }
    } else if kind == KIND_METADATA {
        match decode_metadata(bytes) {
            Ok(f) => Ok(DecodedFrame::Metadata(f)),
            Err(e) => Err(e),
        }
    } else {
        Err(EnvelopeError::UnknownKind(kind))
    }
}

/// Decodes the video frame after the kind byte at `bytes[0]`.
fn decode_video(bytes: &[u8]) -> (r: Result<VideoFrame, EnvelopeError>)
    requires
        bytes@.len() >= 1,
    ensures
        match r {
            Ok(f) => decode_video_body(bytes@.skip(1)) == Ok::<_, EnvelopeError>(f@),
            Err(e) => decode_video_body(bytes@.skip(1)) == Err::<VideoFrameView, _>(e),
        },
{
    let ghost r = bytes@.skip(1);
    let n = bytes.len();
    if n - 1 < VIDEO_HEADER_LEN {
        return Err(EnvelopeError::Truncated);
    }
    proof {
        wire::lemma_shift4(bytes@, 1, 0);
        wire::lemma_shift4(bytes@, 1, 4);
        wire::lemma_shift4(bytes@, 1, 8);
        wire::lemma_shift4(bytes@, 1, 12);
        wire::lemma_shift4(bytes@, 1, 16);
        wire::lemma_shift4(bytes@, 1, 20);
        wire::lemma_shift4(bytes@, 1, 24);
        wire::lemma_shift4(bytes@, 1, 28);
        wire::lemma_shift8(bytes@, 1, 32);
        wire::lemma_shift4(bytes@, 1, 40);
    }
    let xres = get_i32(bytes, 1);
    let yres = get_i32(bytes, 5);
    let four_cc = get_u32(bytes, 9);
    let frame_rate_n = get_i32(bytes, 13);
    let frame_rate_d = get_i32(bytes, 17);
    let picture_aspect_ratio_bits = get_u32(bytes, 21);
    let frame_format_type = get_i32(bytes, 25);
    let line_stride_in_bytes = get_i32(bytes, 29);
    let timecode = get_i64(bytes, 33);
    let len = get_u32(bytes, 41) as usize;
    if n - 1 - VIDEO_HEADER_LEN < len {
        return Err(EnvelopeError::Truncated);
    }
    let data = copy_range(bytes, 1 + VIDEO_HEADER_LEN, len);
    assert(data@ =~= r.subrange(44, 44 + len));
    Ok(
        VideoFrame {
            xres,
            yres,
            four_cc,
            frame_rate_n,
            frame_rate_d,
            picture_aspect_ratio_bits,
            frame_format_type,
            timecode,
            line_stride_in_bytes,
            data,
        },
    )
}

/// Decodes the audio frame after the kind byte at `bytes[0]`.
fn decode_audio(bytes: &[u8]) -> (r: Result<AudioFrame, EnvelopeError>)
    requires
        bytes@.len() >= 1,
    ensures
        match r {
            Ok(f) => decode_audio_body(bytes@.skip(1)) == Ok::<_, EnvelopeError>(f@),
            Err(e) => decode_audio_body(bytes@.skip(1)) == Err::<AudioFrameView, _>(e),
        },
{
    let ghost r = bytes@.skip(1);
    let n = bytes.len();
    if n - 1 < AUDIO_HEADER_LEN {
        return Err(EnvelopeError::Truncated);
    }
    proof {
        wire::lemma_shift4(bytes@, 1, 0);
        wire::lemma_shift4(bytes@, 1, 4);
        wire::lemma_shift4(bytes@, 1, 8);
        wire::lemma_shift8(bytes@, 1, 12);
        wire::lemma_shift4(bytes@, 1, 20);
    }
    let sample_rate = get_i32(bytes, 1);
    let no_channels = get_i32(bytes, 5);
    let no_samples = get_i32(bytes, 9);
    let timecode = get_i64(bytes, 13);
    let len = get_u32(bytes, 21) as usize;
    let avail = n - 1 - AUDIO_HEADER_LEN;
    if avail / 4 < len {
        return Err(EnvelopeError::Truncated);
    }
    let mut data: Vec<u32> = Vec::with_capacity(len);
    let mut k: usize = 0;
    while k < len
        invariant
            k <= len,
            n == bytes@.len(),
            r == bytes@.skip(1),
            4 * len <= n - 1 - AUDIO_HEADER_LEN,
            data@ =~= Seq::new(k as nat, |j: int| wire::u32_at(r, 24 + 4 * j)),
        decreases len - k,
    {
        proof {
            wire::lemma_shift4(bytes@, 1, 24 + 4 * k);
        }
        let x = get_u32(bytes, 1 + AUDIO_HEADER_LEN + 4 * k);
        data.push(x);
        k = k + 1;
        assert(data@ =~= Seq::new(k as nat, |j: int| wire::u32_at(r, 24 + 4 * j)));
    }
    Ok(AudioFrame { sample_rate, no_channels, no_samples, timecode, data })
}

/// Decodes the metadata frame after the kind byte at `bytes[0]`.
fn decode_metadata(bytes: &[u8]) -> (r: Result<MetadataFrame, EnvelopeError>)
    requires
        bytes@.len() >= 1,
    ensures
        match r {
            Ok(f) => decode_metadata_body(bytes@.skip(1)) == Ok::<_, EnvelopeError>(f@),
            Err(e) => decode_metadata_body(bytes@.skip(1)) == Err::<MetadataFrameView, _>(e),
        },
{
    let ghost r = bytes@.skip(1);
    let n = bytes.len();
    if n - 1 < METADATA_HEADER_LEN {
        return Err(EnvelopeError::Truncated);
    }
    proof {
        wire::lemma_shift8(bytes@, 1, 0);
        wire::lemma_shift4(bytes@, 1, 8);
    }
    let timecode = get_i64(bytes, 1);
    let len = get_u32(bytes, 9) as usize;
    if n - 1 - METADATA_HEADER_LEN < len {
        return Err(EnvelopeError::Truncated);
    }
    let raw = copy_range(bytes, 1 + METADATA_HEADER_LEN, len);
    assert(raw@ =~= r.subrange(12, 12 + len));
    match string_from_utf8(raw) {
        Some(text) => Ok(MetadataFrame { timecode, data: text }),
        None => Err(EnvelopeError::BadMetadata),
    }
}

// ------------------------------------------------------------------ laws --

/// Decoding the envelope of a video frame gives the frame back, every field
/// and every payload byte included (the payload length must fit the `u32`
/// length field).
pub proof fn lemma_video_round_trip(f: VideoFrameView)
    requires
        f.data.len() <= u32::MAX,
    ensures
        decode_spec(video_envelope(f)) == Ok::<_, EnvelopeError>(FrameView::Video(f)),
{
    let d = f.data;
    let t9 = wire::be_u32(d.len() as u32) + d;
    let t8 = wire::be_i64(f.timecode) + t9;
    let t7 = wire::be_i32(f.line_stride_in_bytes) + t8;
    let t6 = wire::be_i32(f.frame_format_type) + t7;
    let t5 = wire::be_u32(f.picture_aspect_ratio_bits) + t6;
    let t4 = wire::be_i32(f.frame_rate_d) + t5;
    let t3 = wire::be_i32(f.frame_rate_n) + t4;
    let t2 = wire::be_u32(f.four_cc) + t3;
    let t1 = wire::be_i32(f.yres) + t2;
    let t0 = wire::be_i32(f.xres) + t1;
    let r = video_envelope(f).skip(1);
    assert(r =~= t0);
    assert(r.skip(0) =~= r);
    wire::lemma_field_i32(r, 0, f.xres, t1);
    wire::lemma_field_i32(r, 4, f.yres, t2);
    wire::lemma_field_u32(r, 8, f.four_cc, t3);
    wire::lemma_field_i32(r, 12, f.frame_rate_n, t4);
    wire::lemma_field_i32(r, 16, f.frame_rate_d, t5);
    wire::lemma_field_u32(r, 20, f.picture_aspect_ratio_bits, t6);
    wire::lemma_field_i32(r, 24, f.frame_format_type, t7);
    wire::lemma_field_i32(r, 28, f.line_stride_in_bytes, t8);
    wire::lemma_field_i64(r, 32, f.timecode, t9);
    wire::lemma_field_u32(r, 40, d.len() as u32, d);
    assert(r.subrange(44, 44 + d.len() as int) =~= d);
    assert(decode_video_body(r) == Ok::<_, EnvelopeError>(f));
}

/// Decoding the envelope of an audio frame gives the frame back, every
/// sample's bits included (the sample count must fit the `u32` count field).
pub proof fn lemma_audio_round_trip(f: AudioFrameView)
    requires
        f.data.len() <= u32::MAX,
    ensures
        decode_spec(audio_envelope(f)) == Ok::<_, EnvelopeError>(FrameView::Audio(f)),
{
    let d = f.data;
    let p = wire::be_u32s(d);
    wire::lemma_be_u32s_len(d);
    let t4 = wire::be_u32(d.len() as u32) + p;
    let t3 = wire::be_i64(f.timecode) + t4;
    let t2 = wire::be_i32(f.no_samples) + t3;
    let t1 = wire::be_i32(f.no_channels) + t2;
    let t0 = wire::be_i32(f.sample_rate) + t1;
    wire::lemma_take_u32(d.len() as u32, p);
    wire::lemma_take_i64(f.timecode, t4);
    wire::lemma_take_i32(f.no_samples, t3);
    wire::lemma_take_i32(f.no_channels, t2);
    wire::lemma_take_i32(f.sample_rate, t1);
    assert(t0 == audio_body(f));
    let b = audio_envelope(f);
    assert(b.skip(1) =~= t0);
    assert(t0.skip(4) =~= t1);
    assert(t0.skip(8) =~= t2);
    assert(t0.skip(12) =~= t3);
    assert(t0.skip(20) =~= t4);
    assert(t0.skip(24) =~= p);
    wire::lemma_shift4(t0, 4, 0);
    wire::lemma_shift4(t0, 8, 0);
    wire::lemma_shift8(t0, 12, 0);
    wire::lemma_shift4(t0, 20, 0);
    let decoded = Seq::new(d.len(), |k: int| wire::u32_at(t0, 24 + 4 * k));
    assert forall|k: int| 0 <= k < d.len() implies decoded[k] == d[k] by {
        wire::lemma_shift4(t0, 24, 4 * k);
        wire::lemma_be_u32s_index(d, k);
    }
    assert(decoded =~= d);
}

/// Decoding the envelope of a metadata frame gives the frame back, its text
/// included (the text's UTF-8 length must fit the `u32` length field).
pub proof fn lemma_metadata_round_trip(f: MetadataFrameView)
    requires
        encode_utf8(f.data).len() <= u32::MAX,
    ensures
        decode_spec(metadata_envelope(f)) == Ok::<_, EnvelopeError>(FrameView::Metadata(f)),
{
    let u = encode_utf8(f.data);
    let t1 = wire::be_u32(u.len() as u32) + u;
    let t0 = wire::be_i64(f.timecode) + t1;
    wire::lemma_take_u32(u.len() as u32, u);
    wire::lemma_take_i64(f.timecode, t1);
    assert(t0 == metadata_body(f));
    let b = metadata_envelope(f);
    assert(b.skip(1) =~= t0);
    assert(t0.skip(8) =~= t1);
    wire::lemma_shift4(t0, 8, 0);
    assert(t0.subrange(12, 12 + u.len() as int) =~= u);
}

} // verus!
