use srt_router::omt::envelope::{decode, encode, HEADER_LEN};
use srt_router::omt::sys::{OMTCodec, OMTFrameType, OMTFrameTypeMask, OMTMediaFrame};

#[test]
fn round_trips_a_frame() {
    let frame = OMTMediaFrame {
        frame_type: 2,
        timestamp: 12345,
        codec: 0x5956_5955, // UYVY
        width: 640,
        height: 360,
        stride: 1280,
        flags: 0,
        frame_rate_n: 30,
        frame_rate_d: 1,
        aspect_ratio_bits: (16.0f32 / 9.0).to_bits(),
        color_space: 709,
        sample_rate: 0,
        channels: 0,
        samples_per_channel: 0,
    };
    let payload = vec![1u8, 2, 3, 4, 5];
    let encoded = encode(&frame, &payload);
    let decoded = decode(&encoded).expect("decode");
    assert_eq!(decoded.frame_type, 2);
    assert_eq!(decoded.width, 640);
    assert_eq!(decoded.height, 360);
    assert_eq!(f32::from_bits(decoded.aspect_ratio_bits), 16.0 / 9.0);
    assert_eq!(decoded.data, payload);
}

#[test]
fn rejects_truncated_input() {
    assert!(decode(b"short").is_none());
}

#[test]
fn header_is_sixty_four_bytes() {
    let frame = OMTMediaFrame::default();
    let encoded = encode(&frame, &[9, 9]);
    assert_eq!(HEADER_LEN, 64);
    assert_eq!(encoded.len(), 66);
    assert_eq!(&encoded[60..64], &[0, 0, 0, 2]);
    assert!(decode(&encoded[..65]).is_none());
}

#[test]
fn frame_codes_match_the_c_header() {
    assert_eq!(OMTFrameType::Video.code(), 2);
    assert_eq!(OMTFrameType::Audio.code(), 4);
    assert_eq!(OMTCodec::UYVY.code(), 0x5956_5955);
    assert_eq!(OMTFrameTypeMask::all().0, 7);
    assert_eq!(OMTFrameTypeMask::video().bitor(OMTFrameTypeMask::audio()).0, 6);
}
