//! Wire format for one OMT frame as an opaque byte blob: the frame's value
//! fields, big-endian, in declaration order (64 bytes with the `u32` payload
//! length), then the payload.

use crate::omt::sys::OMTMediaFrame;
use crate::wire;
use crate::wire::{copy_range, get_i32, get_i64, get_u32, put_i32, put_i64, put_u32};
use vstd::prelude::*;

verus! {

pub const HEADER_LEN: usize = 64;

/// A frame decoded from an envelope: the value fields and an owned payload.
pub struct DecodedFrame {
    pub frame_type: i32,
    pub timestamp: i64,
    pub codec: i32,
    pub width: i32,
    pub height: i32,
    pub stride: i32,
    pub flags: i32,
    pub frame_rate_n: i32,
    pub frame_rate_d: i32,
    /// The bits of the `f32` aspect ratio.
    pub aspect_ratio_bits: u32,
    pub color_space: i32,
    pub sample_rate: i32,
    pub channels: i32,
    pub samples_per_channel: i32,
    pub data: Vec<u8>,
}

impl DecodedFrame {
    /// The value fields, without the payload.
    pub open spec fn header(&self) -> OMTMediaFrame {
        OMTMediaFrame {
            frame_type: self.frame_type,
            timestamp: self.timestamp,
            codec: self.codec,
            width: self.width,
            height: self.height,
            stride: self.stride,
            flags: self.flags,
            frame_rate_n: self.frame_rate_n,
            frame_rate_d: self.frame_rate_d,
            aspect_ratio_bits: self.aspect_ratio_bits,
            color_space: self.color_space,
            sample_rate: self.sample_rate,
            channels: self.channels,
            samples_per_channel: self.samples_per_channel,
        }
    }
}

/// The envelope of a frame's value fields and its payload.
pub open spec fn envelope(f: OMTMediaFrame, data: Seq<u8>) -> Seq<u8> {
    wire::be_i32(f.frame_type) + (wire::be_i64(f.timestamp) + (wire::be_i32(f.codec) + (
    wire::be_i32(f.width) + (wire::be_i32(f.height) + (wire::be_i32(f.stride) + (wire::be_i32(
        f.flags,
    ) + (wire::be_i32(f.frame_rate_n) + (wire::be_i32(f.frame_rate_d) + (wire::be_u32(
        f.aspect_ratio_bits,
    ) + (wire::be_i32(f.color_space) + (wire::be_i32(f.sample_rate) + (wire::be_i32(f.channels) + (
    wire::be_i32(f.samples_per_channel) + (wire::be_u32(data.len() as u32) + data))))))))))))))
}

/// What decoding an envelope gives: `None` when it is shorter than its header
/// or than the payload length the header announces; otherwise the fields and
/// the payload, ignoring any bytes after it.
pub open spec fn decode_spec(b: Seq<u8>) -> Option<(OMTMediaFrame, Seq<u8>)> {
    if b.len() < HEADER_LEN {
        None
    } else {
        let len = wire::u32_at(b, 60) as int;
        if b.len() - HEADER_LEN < len {
            None
        } else {
            Some(
                (
                    OMTMediaFrame {
                        frame_type: wire::i32_at(b, 0),
                        timestamp: wire::i64_at(b, 4),
                        codec: wire::i32_at(b, 12),
                        width: wire::i32_at(b, 16),
                        height: wire::i32_at(b, 20),
                        stride: wire::i32_at(b, 24),
                        flags: wire::i32_at(b, 28),
                        frame_rate_n: wire::i32_at(b, 32),
                        frame_rate_d: wire::i32_at(b, 36),
                        aspect_ratio_bits: wire::u32_at(b, 40),
                        color_space: wire::i32_at(b, 44),
                        sample_rate: wire::i32_at(b, 48),
                        channels: wire::i32_at(b, 52),
                        samples_per_channel: wire::i32_at(b, 56),
                    },
                    b.subrange(64, 64 + len),
                ),
            )
        }
    }
}

/// `data` is passed separately from the frame's fields, as the caller already
/// holds it as a byte slice.
pub fn encode(frame: &OMTMediaFrame, data: &[u8]) -> (out: Vec<u8>)
    ensures
        out@ == envelope(*frame, data@),
{
    let mut buf: Vec<u8> = Vec::new();
    put_i32(&mut buf, frame.frame_type);
    put_i64(&mut buf, frame.timestamp);
    put_i32(&mut buf, frame.codec);
    put_i32(&mut buf, frame.width);
    put_i32(&mut buf, frame.height);
    put_i32(&mut buf, frame.stride);
    put_i32(&mut buf, frame.flags);
    put_i32(&mut buf, frame.frame_rate_n);
    put_i32(&mut buf, frame.frame_rate_d);
    put_u32(&mut buf, frame.aspect_ratio_bits);
    put_i32(&mut buf, frame.color_space);
    put_i32(&mut buf, frame.sample_rate);
    put_i32(&mut buf, frame.channels);
    put_i32(&mut buf, frame.samples_per_channel);
    put_u32(&mut buf, data.len() as u32);
    buf.extend_from_slice(data);
    assert(buf@ =~= envelope(*frame, data@));
    buf
}

/// `None` on truncated input rather than panicking: this reads data that
/// arrived over the crosspoint from a receiver.
pub fn decode(bytes: &[u8]) -> (r: Option<DecodedFrame>)
    ensures
        match r {
            Some(f) => decode_spec(bytes@) == Some((f.header(), f.data@)),
            None => decode_spec(bytes@) is None,
        },
{
    let n = bytes.len();
    if n < HEADER_LEN {
        return None;
    }
    let len = get_u32(bytes, 60) as usize;
    if n - HEADER_LEN < len {
        return None;
    }
    let data = copy_range(bytes, HEADER_LEN, len);
    let f = DecodedFrame {
        frame_type: get_i32(bytes, 0),
        timestamp: get_i64(bytes, 4),
        codec: get_i32(bytes, 12),
        width: get_i32(bytes, 16),
        height: get_i32(bytes, 20),
        stride: get_i32(bytes, 24),
        flags: get_i32(bytes, 28),
        frame_rate_n: get_i32(bytes, 32),
        frame_rate_d: get_i32(bytes, 36),
        aspect_ratio_bits: get_u32(bytes, 40),
        color_space: get_i32(bytes, 44),
        sample_rate: get_i32(bytes, 48),
        channels: get_i32(bytes, 52),
        samples_per_channel: get_i32(bytes, 56),
        data,
    };
    Some(f)
}

/// Decoding the envelope of a frame gives its fields and payload back (the
/// payload length must fit the `u32` length field).
pub proof fn lemma_round_trip(f: OMTMediaFrame, data: Seq<u8>)
    requires
        data.len() <= u32::MAX,
    ensures
        decode_spec(envelope(f, data)) == Some((f, data)),
{
    let t14 = wire::be_u32(data.len() as u32) + data;
    let t13 = wire::be_i32(f.samples_per_channel) + t14;
    let t12 = wire::be_i32(f.channels) + t13;
    let t11 = wire::be_i32(f.sample_rate) + t12;
    let t10 = wire::be_i32(f.color_space) + t11;
    let t9 = wire::be_u32(f.aspect_ratio_bits) + t10;
    let t8 = wire::be_i32(f.frame_rate_d) + t9;
    let t7 = wire::be_i32(f.frame_rate_n) + t8;
    let t6 = wire::be_i32(f.flags) + t7;
    let t5 = wire::be_i32(f.stride) + t6;
    let t4 = wire::be_i32(f.height) + t5;
    let t3 = wire::be_i32(f.width) + t4;
    let t2 = wire::be_i32(f.codec) + t3;
    let t1 = wire::be_i64(f.timestamp) + t2;
    let t0 = wire::be_i32(f.frame_type) + t1;
    let b = envelope(f, data);
    assert(b == t0);
    assert(b.skip(0) =~= b);
    wire::lemma_field_i32(b, 0, f.frame_type, t1);
    wire::lemma_field_i64(b, 4, f.timestamp, t2);
    wire::lemma_field_i32(b, 12, f.codec, t3);
    wire::lemma_field_i32(b, 16, f.width, t4);
    wire::lemma_field_i32(b, 20, f.height, t5);
    wire::lemma_field_i32(b, 24, f.stride, t6);
    wire::lemma_field_i32(b, 28, f.flags, t7);
    wire::lemma_field_i32(b, 32, f.frame_rate_n, t8);
    wire::lemma_field_i32(b, 36, f.frame_rate_d, t9);
    wire::lemma_field_u32(b, 40, f.aspect_ratio_bits, t10);
    wire::lemma_field_i32(b, 44, f.color_space, t11);
    wire::lemma_field_i32(b, 48, f.sample_rate, t12);
    wire::lemma_field_i32(b, 52, f.channels, t13);
    wire::lemma_field_i32(b, 56, f.samples_per_channel, t14);
    wire::lemma_field_u32(b, 60, data.len() as u32, data);
    assert(b.subrange(64, 64 + data.len() as int) =~= data);
}

} // verus!
