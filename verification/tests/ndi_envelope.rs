use srt_router::ndi::envelope::{
    decode, encode_audio, encode_metadata, encode_video, DecodedFrame, EnvelopeError,
};
use srt_router::ndi::frames::{AudioFrame, MetadataFrame, VideoFrame};
use srt_router::ndi::transport::{c_text, SysError, FOURCC_FLTP};

fn video(stride: i32, height: i32) -> VideoFrame {
    VideoFrame {
        xres: 4,
        yres: height,
        four_cc: u32::from_le_bytes(*b"UYVY"),
        frame_rate_n: 30000,
        frame_rate_d: 1001,
        picture_aspect_ratio_bits: 1.7778f32.to_bits(),
        frame_format_type: 1,
        timecode: 1234,
        line_stride_in_bytes: stride,
        data: (0..(stride * height) as usize).map(|i| i as u8).collect(),
    }
}

#[test]
fn round_trips_video() {
    let sent = video(8, 3);
    let Ok(DecodedFrame::Video(back)) = decode(&encode_video(&sent)) else {
        panic!("expected a video frame")
    };
    assert_eq!(back.xres, sent.xres);
    assert_eq!(back.yres, sent.yres);
    assert_eq!(back.four_cc, sent.four_cc);
    assert_eq!(back.frame_rate_n, sent.frame_rate_n);
    assert_eq!(back.frame_rate_d, sent.frame_rate_d);
    assert_eq!(back.frame_format_type, sent.frame_format_type);
    assert_eq!(back.timecode, sent.timecode);
    assert_eq!(back.data, sent.data);
}

#[test]
fn round_trips_a_padded_stride() {
    // 4 pixels of UYVY is 8 bytes, but this source pads each row to 12.
    let sent = video(12, 3);
    let Ok(DecodedFrame::Video(back)) = decode(&encode_video(&sent)) else {
        panic!("expected a video frame")
    };
    assert_eq!(back.line_stride_in_bytes, 12);
    assert_eq!(back.data, sent.data);
    assert_eq!(back.data.len(), 36);
}

#[test]
fn round_trips_audio() {
    let samples: Vec<f32> = vec![0.0, 0.5, -0.5, 1.0, 0.25, -0.25, 0.75, -0.75];
    let sent = AudioFrame {
        sample_rate: 48_000,
        no_channels: 2,
        no_samples: 4,
        timecode: -1,
        data: samples.iter().map(|s| s.to_bits()).collect(),
    };
    let Ok(DecodedFrame::Audio(back)) = decode(&encode_audio(&sent)) else {
        panic!("expected an audio frame")
    };
    assert_eq!(back.sample_rate, sent.sample_rate);
    assert_eq!(back.no_channels, sent.no_channels);
    assert_eq!(back.no_samples, sent.no_samples);
    assert_eq!(back.timecode, sent.timecode);
    let back_samples: Vec<f32> = back.data.iter().map(|b| f32::from_bits(*b)).collect();
    assert_eq!(back_samples, samples);
}

#[test]
fn round_trips_metadata() {
    let sent = MetadataFrame {
        timecode: 99,
        data: "<ndi_capabilities video_quality=\"good\"/>".into(),
    };
    let Ok(DecodedFrame::Metadata(back)) = decode(&encode_metadata(&sent)) else {
        panic!("expected a metadata frame")
    };
    assert_eq!(back.timecode, sent.timecode);
    assert_eq!(back.data, sent.data);
}

#[test]
fn rejects_an_empty_envelope() {
    assert!(matches!(decode(&[]), Err(EnvelopeError::Truncated)));
}

#[test]
fn rejects_an_unknown_kind() {
    assert!(matches!(decode(&[9, 0, 0]), Err(EnvelopeError::UnknownKind(9))));
}

#[test]
fn rejects_a_truncated_payload() {
    let mut encoded = encode_video(&video(8, 3));
    encoded.truncate(encoded.len() - 4);
    assert!(matches!(decode(&encoded), Err(EnvelopeError::Truncated)));
}

#[test]
fn fltp_fourcc_matches_the_sdk_macro() {
    // NDI_LIB_FOURCC('F','L','T','p') packs little-endian, so the bytes
    // read F,L,T,p in memory. Note the lowercase 'p'.
    assert_eq!(FOURCC_FLTP.to_le_bytes(), *b"FLTp");
}

#[test]
fn video_envelope_layout_is_big_endian_kind_first() {
    let f = VideoFrame {
        xres: 1,
        yres: 2,
        four_cc: 0x0102_0304,
        frame_rate_n: -1,
        frame_rate_d: 5,
        picture_aspect_ratio_bits: 0x3f80_0000,
        frame_format_type: 6,
        timecode: 7,
        line_stride_in_bytes: 8,
        data: vec![0xaa, 0xbb],
    };
    let e = encode_video(&f);
    assert_eq!(e.len(), 1 + 44 + 2);
    assert_eq!(e[0], 0);
    assert_eq!(&e[1..5], &[0, 0, 0, 1]);
    assert_eq!(&e[9..13], &[1, 2, 3, 4]);
    assert_eq!(&e[13..17], &[0xff, 0xff, 0xff, 0xff]);
    assert_eq!(&e[21..25], &[0x3f, 0x80, 0, 0]);
    assert_eq!(&e[33..41], &[0, 0, 0, 0, 0, 0, 0, 7]);
    assert_eq!(&e[41..45], &[0, 0, 0, 2]);
    assert_eq!(&e[45..], &[0xaa, 0xbb]);
}

#[test]
fn a_header_cut_short_is_truncated_not_a_panic() {
    // Every strict prefix of a video envelope's fixed fields is refused.
    let e = encode_video(&video(8, 1));
    for n in 1..45 {
        assert!(matches!(decode(&e[..n]), Err(EnvelopeError::Truncated)), "prefix {n}");
    }
}

#[test]
fn trailing_bytes_after_the_payload_are_ignored() {
    let sent = MetadataFrame { timecode: 3, data: "hi".into() };
    let mut e = encode_metadata(&sent);
    e.extend_from_slice(&[1, 2, 3]);
    let Ok(DecodedFrame::Metadata(back)) = decode(&e) else {
        panic!("expected a metadata frame")
    };
    assert_eq!(back.data, "hi");
}

#[test]
fn metadata_that_is_not_utf8_is_refused() {
    let bytes = [2u8, 0, 0, 0, 0, 0, 0, 0, 0, 0, 0, 0, 2, 0xc3, 0x28];
    assert!(matches!(decode(&bytes), Err(EnvelopeError::BadMetadata)));
}

#[test]
fn an_audio_count_beyond_the_samples_is_truncated() {
    let f = AudioFrame { sample_rate: 1, no_channels: 1, no_samples: 2, timecode: 0, data: vec![1, 2] };
    let mut e = encode_audio(&f);
    e.truncate(e.len() - 1);
    assert!(matches!(decode(&e), Err(EnvelopeError::Truncated)));
}

/// Text bound for the runtime keeps everything up to a closing NUL; one with
/// a NUL inside is refused rather than cut short.
#[test]
fn metadata_with_an_interior_nul_is_rejected_not_truncated() {
    let err = c_text("bad\0value", "metadata");
    assert!(matches!(err, Err(SysError::BadString(_))));
    let ok = c_text("<test/>", "metadata").ok().unwrap();
    assert_eq!(ok, b"<test/>\0".to_vec());
    let accented = c_text("é", "metadata").ok().unwrap();
    assert_eq!(accented, vec![0xc3, 0xa9, 0]);
}
