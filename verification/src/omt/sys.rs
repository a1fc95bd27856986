//! Values of the OMT C API, as the library handles them. Each enum's
//! `code` is the integer the C header assigns to that variant.

use vstd::prelude::*;

verus! {

#[derive(Debug, Clone, Copy, PartialEq, Eq, Structural)]
pub enum OMTFrameType {
    /// `None` in the C header.
    NoFrame,
    Metadata,
    Video,
    Audio,
}

impl OMTFrameType {
    pub open spec fn spec_code(self) -> i32 {
        match self {
            OMTFrameType::NoFrame => 0,
            OMTFrameType::Metadata => 1,
            OMTFrameType::Video => 2,
            OMTFrameType::Audio => 4,
        }
    }

    pub fn code(self) -> (c: i32)
        ensures
            c == self.spec_code(),
    {
        match self {
            OMTFrameType::NoFrame => 0,
            OMTFrameType::Metadata => 1,
            OMTFrameType::Video => 2,
            OMTFrameType::Audio => 4,
        }
    }
}

#[derive(Debug, Clone, Copy, PartialEq, Eq, Structural)]
pub enum OMTCodec {
    VMX1,
    FPA1,
    UYVY,
    YUY2,
    BGRA,
    NV12,
    YV12,
    UYVA,
    P216,
    PA16,
}

impl OMTCodec {
    /// The FourCC code, packed little-endian as the header does.
    pub open spec fn spec_code(self) -> i32 {
        match self {
            OMTCodec::VMX1 => 0x3158_4D56,
            OMTCodec::FPA1 => 0x3141_5046,
            OMTCodec::UYVY => 0x5956_5955,
            OMTCodec::YUY2 => 0x3259_5559,
            OMTCodec::BGRA => 0x4152_4742,
            OMTCodec::NV12 => 0x3231_564E,
            OMTCodec::YV12 => 0x3231_5659,
            OMTCodec::UYVA => 0x4156_5955,
            OMTCodec::P216 => 0x3631_3250,
            OMTCodec::PA16 => 0x3631_4150,
        }
    }

    pub fn code(self) -> (c: i32)
        ensures
            c == self.spec_code(),
    {
        match self {
            OMTCodec::VMX1 => 0x3158_4D56,
            OMTCodec::FPA1 => 0x3141_5046,
            OMTCodec::UYVY => 0x5956_5955,
            OMTCodec::YUY2 => 0x3259_5559,
            OMTCodec::BGRA => 0x4152_4742,
            OMTCodec::NV12 => 0x3231_564E,
            OMTCodec::YV12 => 0x3231_5659,
            OMTCodec::UYVA => 0x4156_5955,
            OMTCodec::P216 => 0x3631_3250,
            OMTCodec::PA16 => 0x3631_4150,
        }
    }
}

#[derive(Debug, Clone, Copy, PartialEq, Eq, Structural)]
pub enum OMTQuality {
    Default,
    Low,
    Medium,
    High,
}

impl OMTQuality {
    pub open spec fn spec_code(self) -> i32 {
        match self {
            OMTQuality::Default => 0,
            OMTQuality::Low => 1,
            OMTQuality::Medium => 50,
            OMTQuality::High => 100,
        }
    }

    pub fn code(self) -> (c: i32)
        ensures
            c == self.spec_code(),
    {
        match self {
            OMTQuality::Default => 0,
            OMTQuality::Low => 1,
            OMTQuality::Medium => 50,
            OMTQuality::High => 100,
        }
    }
}

#[derive(Debug, Clone, Copy, PartialEq, Eq, Structural)]
pub enum OMTPreferredVideoFormat {
    UYVY,
    UYVYorBGRA,
    BGRA,
    UYVYorUYVA,
    UYVYorUYVAorP216orPA16,
    P216,
}

impl OMTPreferredVideoFormat {
    pub open spec fn spec_code(self) -> i32 {
        match self {
            OMTPreferredVideoFormat::UYVY => 0,
            OMTPreferredVideoFormat::UYVYorBGRA => 1,
            OMTPreferredVideoFormat::BGRA => 2,
            OMTPreferredVideoFormat::UYVYorUYVA => 3,
            OMTPreferredVideoFormat::UYVYorUYVAorP216orPA16 => 4,
            OMTPreferredVideoFormat::P216 => 5,
        }
    }

    pub fn code(self) -> (c: i32)
        ensures
            c == self.spec_code(),
    {
        match self {
            OMTPreferredVideoFormat::UYVY => 0,
            OMTPreferredVideoFormat::UYVYorBGRA => 1,
            OMTPreferredVideoFormat::BGRA => 2,
            OMTPreferredVideoFormat::UYVYorUYVA => 3,
            OMTPreferredVideoFormat::UYVYorUYVAorP216orPA16 => 4,
            OMTPreferredVideoFormat::P216 => 5,
        }
    }
}

#[derive(Debug, Clone, Copy, PartialEq, Eq, Structural)]
pub enum OMTReceiveFlags {
    /// `None` in the C header.
    NoFlags,
    Preview,
    IncludeCompressed,
    CompressedOnly,
}

impl OMTReceiveFlags {
    pub open spec fn spec_code(self) -> i32 {
        match self {
            OMTReceiveFlags::NoFlags => 0,
            OMTReceiveFlags::Preview => 1,
            OMTReceiveFlags::IncludeCompressed => 2,
            OMTReceiveFlags::CompressedOnly => 4,
        }
    }

    pub fn code(self) -> (c: i32)
        ensures
            c == self.spec_code(),
    {
        match self {
            OMTReceiveFlags::NoFlags => 0,
            OMTReceiveFlags::Preview => 1,
            OMTReceiveFlags::IncludeCompressed => 2,
            OMTReceiveFlags::CompressedOnly => 4,
        }
    }
}

/// A set of frame types, as the bitwise OR of their `OMTFrameType` codes, so
/// one receive call can ask for several kinds.
#[derive(Debug, Clone, Copy, PartialEq, Eq, Structural)]
pub struct OMTFrameTypeMask(pub i32);

impl OMTFrameTypeMask {
    pub fn none() -> (m: Self)
        ensures
            m.0 == 0,
    {
        OMTFrameTypeMask(0)
    }

    pub fn metadata() -> (m: Self)
        ensures
            m.0 == OMTFrameType::Metadata.spec_code(),
    {
        OMTFrameTypeMask(1)
    }

    pub fn video() -> (m: Self)
        ensures
            m.0 == OMTFrameType::Video.spec_code(),
    {
        OMTFrameTypeMask(2)
    }

    pub fn audio() -> (m: Self)
        ensures
            m.0 == OMTFrameType::Audio.spec_code(),
    {
        OMTFrameTypeMask(4)
    }

    /// Every frame kind: the union of the three single-kind masks.
    pub fn all() -> (m: Self)
        ensures
            m.0 == 1i32 | 2i32 | 4i32,
    {
        proof {
            assert(1i32 | 2i32 | 4i32 == 7i32) by (bit_vector);
        }
        OMTFrameTypeMask(7)
    }

    /// The union of two masks.
    pub fn bitor(self, rhs: Self) -> (r: Self)
        ensures
            r.0 == self.0 | rhs.0,
    {
        OMTFrameTypeMask(self.0 | rhs.0)
    }

    /// The mask holding exactly the given frame type.
    pub fn of(t: OMTFrameType) -> (r: Self)
        ensures
            r.0 == t.spec_code(),
    {
        OMTFrameTypeMask(t.code())
    }
}

/// Tally state reported by the OMT API.
#[derive(Debug, Clone, Copy, PartialEq, Eq, Structural)]
pub struct OMTTally {
    pub preview: i32,
    pub program: i32,
}

#[allow(non_camel_case_types)]
/// An opaque receive handle of the OMT library; only ever passed back to it.
pub struct omt_receive_t {
    _private: [u8; 0],
}

#[allow(non_camel_case_types)]
/// An opaque send handle of the OMT library; only ever passed back to it.
pub struct omt_send_t {
    _private: [u8; 0],
}

/// The value fields of one OMT media frame: everything the envelope carries
/// besides the payload. `aspect_ratio_bits` holds the bits of the `f32`
/// aspect ratio.
#[derive(Debug, Clone, Copy, PartialEq, Eq, Structural)]
pub struct OMTMediaFrame {
    pub frame_type: i32,
    pub timestamp: i64,
    pub codec: i32,
    pub width: i32,
    pub height: i32,
    pub stride: i32,
    pub flags: i32,
    pub frame_rate_n: i32,
    pub frame_rate_d: i32,
    pub aspect_ratio_bits: u32,
    pub color_space: i32,
    pub sample_rate: i32,
    pub channels: i32,
    pub samples_per_channel: i32,
}

impl Default for OMTMediaFrame {
    /// The zeroed frame the C header asks for before use.
    fn default() -> (f: Self)
        ensures
            f == (OMTMediaFrame {
                frame_type: 0,
                timestamp: 0,
                codec: 0,
                width: 0,
                height: 0,
                stride: 0,
                flags: 0,
                frame_rate_n: 0,
                frame_rate_d: 0,
                aspect_ratio_bits: 0,
                color_space: 0,
                sample_rate: 0,
                channels: 0,
                samples_per_channel: 0,
            }),
    {
        OMTMediaFrame {
            frame_type: 0,
            timestamp: 0,
            codec: 0,
            width: 0,
            height: 0,
            stride: 0,
            flags: 0,
            frame_rate_n: 0,
            frame_rate_d: 0,
            aspect_ratio_bits: 0,
            color_space: 0,
            sample_rate: 0,
            channels: 0,
            samples_per_channel: 0,
        }
    }
}

} // verus!
