//! Owned NDI frames. Floating-point fields are held as their IEEE-754 bit
//! patterns (`f32::to_bits`), which is exactly what goes on the wire.

use vstd::prelude::*;

verus! {

/// One video frame, payload included. `data` is `yres` rows of
/// `line_stride_in_bytes`, in whatever `four_cc` says.
pub struct VideoFrame {
    pub xres: i32,
    pub yres: i32,
    pub four_cc: u32,
    pub frame_rate_n: i32,
    pub frame_rate_d: i32,
    /// The bits of the `f32` picture aspect ratio.
    pub picture_aspect_ratio_bits: u32,
    pub frame_format_type: i32,
    pub timecode: i64,
    pub line_stride_in_bytes: i32,
    pub data: Vec<u8>,
}

pub struct VideoFrameView {
    pub xres: i32,
    pub yres: i32,
    pub four_cc: u32,
    pub frame_rate_n: i32,
    pub frame_rate_d: i32,
    pub picture_aspect_ratio_bits: u32,
    pub frame_format_type: i32,
    pub timecode: i64,
    pub line_stride_in_bytes: i32,
    pub data: Seq<u8>,
}

impl View for VideoFrame {
    type V = VideoFrameView;

    open spec fn view(&self) -> VideoFrameView {
        VideoFrameView {
            xres: self.xres,
            yres: self.yres,
            four_cc: self.four_cc,
            frame_rate_n: self.frame_rate_n,
            frame_rate_d: self.frame_rate_d,
            picture_aspect_ratio_bits: self.picture_aspect_ratio_bits,
            frame_format_type: self.frame_format_type,
            timecode: self.timecode,
            line_stride_in_bytes: self.line_stride_in_bytes,
            data: self.data@,
        }
    }
}

/// One audio frame: planar 32-bit float (`FLTp`), `no_channels` planes of
/// `no_samples`, each sample held as its `f32` bits.
pub struct AudioFrame {
    pub sample_rate: i32,
    pub no_channels: i32,
    pub no_samples: i32,
    pub timecode: i64,
    pub data: Vec<u32>,
}

pub struct AudioFrameView {
    pub sample_rate: i32,
    pub no_channels: i32,
    pub no_samples: i32,
    pub timecode: i64,
    pub data: Seq<u32>,
}

impl View for AudioFrame {
    type V = AudioFrameView;

    open spec fn view(&self) -> AudioFrameView {
        AudioFrameView {
            sample_rate: self.sample_rate,
            no_channels: self.no_channels,
            no_samples: self.no_samples,
            timecode: self.timecode,
            data: self.data@,
        }
    }
}

pub struct MetadataFrame {
    pub timecode: i64,
    pub data: String,
}

pub struct MetadataFrameView {
    pub timecode: i64,
    pub data: Seq<char>,
}

impl View for MetadataFrame {
    type V = MetadataFrameView;

    open spec fn view(&self) -> MetadataFrameView {
        MetadataFrameView { timecode: self.timecode, data: self.data@ }
    }
}

/// One captured frame of any kind.
pub enum Frame {
    Video(VideoFrame),
    Audio(AudioFrame),
    Metadata(MetadataFrame),
}

/// What a frame of any kind holds, as values.
pub enum FrameView {
    Video(VideoFrameView),
    Audio(AudioFrameView),
    Metadata(MetadataFrameView),
}

impl View for Frame {
    type V = FrameView;

    open spec fn view(&self) -> FrameView {
        match self {
            Frame::Video(f) => FrameView::Video(f@),
            Frame::Audio(f) => FrameView::Audio(f@),
            Frame::Metadata(f) => FrameView::Metadata(f@),
        }
    }
}

} // verus!
