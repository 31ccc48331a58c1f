//! Coding and decoding video in hardware.
//!
//! No B-frames, for they wait for the frame behind them; real time before best compression;
//! keyframes on demand, for each is ten to thirty times as heavy as another frame.

use vstd::prelude::*;
use vstd::string::StringExecFns;

use crate::codec::annexb::BitstreamError;
use crate::protocol::control::{ChromaSubsampling, Codec};
use crate::text::push_signed;

pub mod annexb;
pub mod mediafoundation;
pub mod mf_params;
pub mod nalu;
pub mod videotoolbox;

verus! {

/// Codecs that a Mac decodes, the preferred one first: every system that this runs on has both.
pub fn decodable() -> (r: Vec<Codec>)
    ensures
        r@ == seq![Codec::Hevc, Codec::H264],
{
    vec![Codec::Hevc, Codec::H264]
}

/// Codecs that a Mac encodes.
pub fn encodable() -> (r: Vec<Codec>)
    ensures
        r@ == seq![Codec::Hevc, Codec::H264],
{
    vec![Codec::Hevc, Codec::H264]
}

#[derive(Debug, Clone)]
pub enum CodecError {
    /// The hardware does not take this configuration.
    Unsupported(String),
    SessionCreate { what: &'static str, status: i32 },
    Property { key: &'static str, status: i32 },
    Encode(i32),
    Decode(i32),
    Bitstream(BitstreamError),
    /// No keyframe has come yet.
    MissingParameterSets,
    Closed,
    Timeout,
    System { what: &'static str, detail: String },
}

impl CodecError {
    pub open spec fn text(self) -> Seq<char> {
        match self {
            CodecError::Unsupported(reason) => "phần cứng không hỗ trợ cấu hình này ("@ + reason@
                + ")"@,
            CodecError::SessionCreate { what, status } => "không tạo được phiên "@ + what@
                + ": OSStatus "@ + crate::text::signed(status as int),
            CodecError::Property { key, status } => "không đặt được thuộc tính "@ + key@
                + ": OSStatus "@ + crate::text::signed(status as int),
            CodecError::Encode(status) => "lỗi mã hoá: OSStatus "@ + crate::text::signed(
                status as int,
            ),
            CodecError::Decode(status) => "lỗi giải mã: OSStatus "@ + crate::text::signed(
                status as int,
            ),
            CodecError::Bitstream(e) => "bitstream hỏng: "@ + e.text(),
            CodecError::MissingParameterSets => "thiếu parameter set — chưa nhận được keyframe nào"@,
            CodecError::Closed => "phiên đã đóng"@,
            CodecError::Timeout => "hết thời gian chờ"@,
            CodecError::System { what, detail } => "lỗi hệ thống khi "@ + what@ + ": "@ + detail@,
        }
    }

    /// The error in words.
    pub fn message(&self) -> (s: String)
        ensures
            s@ == self.text(),
    {
        let mut s: String = String::new();
        match self {
            CodecError::Unsupported(reason) => {
                s.append("phần cứng không hỗ trợ cấu hình này (");
                s.append(reason.as_str());
                s.append(")");
            },
            CodecError::SessionCreate { what, status } => {
                s.append("không tạo được phiên ");
                s.append(*what);
                s.append(": OSStatus ");
                push_signed(&mut s, *status as i64);
            },
            CodecError::Property { key, status } => {
                s.append("không đặt được thuộc tính ");
                s.append(*key);
                s.append(": OSStatus ");
                push_signed(&mut s, *status as i64);
            },
            CodecError::Encode(status) => {
                s.append("lỗi mã hoá: OSStatus ");
                push_signed(&mut s, *status as i64);
            },
            CodecError::Decode(status) => {
                s.append("lỗi giải mã: OSStatus ");
                push_signed(&mut s, *status as i64);
            },
            CodecError::Bitstream(e) => {
                s.append("bitstream hỏng: ");
                s.append(e.message().as_str());
            },
            CodecError::MissingParameterSets => {
                s.append("thiếu parameter set — chưa nhận được keyframe nào");
            },
            CodecError::Closed => {
                s.append("phiên đã đóng");
            },
            CodecError::Timeout => {
                s.append("hết thời gian chờ");
            },
            CodecError::System { what, detail } => {
                s.append("lỗi hệ thống khi ");
                s.append(*what);
                s.append(": ");
                s.append(detail.as_str());
            },
        }
        assert(s@ =~= self.text());
        s
    }
}

#[derive(Debug, Clone, Copy, PartialEq, Eq, Structural)]
pub struct EncoderConfig {
    pub width: u32,
    pub height: u32,
    pub codec: Codec,
    /// The colour that is wished for; the hardware may give less.
    pub chroma: ChromaSubsampling,
    pub target_bitrate_kbps: u32,
    pub target_fps: u32,
    /// Longest time between two keyframes. Large, for keyframes mostly come on demand.
    pub keyframe_interval_secs: u32,
}

impl Default for EncoderConfig {
    fn default() -> (r: Self)
        ensures
            r == (EncoderConfig {
                width: 1920,
                height: 1080,
                codec: Codec::Hevc,
                chroma: ChromaSubsampling::Yuv422,
                target_bitrate_kbps: 30_000,
                target_fps: 60,
                keyframe_interval_secs: 10,
            }),
    {
        EncoderConfig {
            width: 1920,
            height: 1080,
            codec: Codec::Hevc,
            chroma: ChromaSubsampling::Yuv422,
            target_bitrate_kbps: 30_000,
            target_fps: 60,
            keyframe_interval_secs: 10,
        }
    }
}

/// A coded frame in Annex B form, ready to be sent.
#[derive(Debug, Clone)]
pub struct EncodedFrame {
    pub data: Vec<u8>,
    pub keyframe: bool,
    /// When the frame was captured, to measure the latency from end to end.
    pub pts_us: u64,
    /// How long the encoder took.
    pub encode_us: u32,
}

#[derive(Debug, Default, Clone, Copy, PartialEq, Eq, Structural)]
pub struct EncoderStats {
    pub frames_submitted: u64,
    pub frames_emitted: u64,
    /// Frames that the encoder left out because it could not follow.
    pub frames_dropped: u64,
    pub bytes_emitted: u64,
    pub errors: u64,
}

/// How the pixels of a decoded frame lie. A decoder is pinned to these two, for left to itself it
/// may pick a format that no public header names.
#[derive(Debug, Clone, Copy, PartialEq, Eq, Structural)]
pub enum FrameFormat {
    /// NV12, 8 bits: the colour plane is half as wide and half as high.
    Nv12VideoRange,
    /// 4:2:2, 10 bits in 16: the colour plane is half as wide and just as high.
    P210VideoRange,
}

impl FrameFormat {
    /// Bits of each sample that carry something.
    pub fn bit_depth(self) -> (r: u32)
        ensures
            r == (match self {
                FrameFormat::Nv12VideoRange => 8u32,
                FrameFormat::P210VideoRange => 10u32,
            }),
    {
        match self {
            FrameFormat::Nv12VideoRange => 8,
            FrameFormat::P210VideoRange => 10,
        }
    }

    /// How often the colour plane is halved against the luma plane, across and down.
    pub fn chroma_shift(self) -> (r: (u32, u32))
        ensures
            r == (match self {
                FrameFormat::Nv12VideoRange => (1u32, 1u32),
                FrameFormat::P210VideoRange => (1u32, 0u32),
            }),
    {
        match self {
            FrameFormat::Nv12VideoRange => (1, 1),
            FrameFormat::P210VideoRange => (1, 0),
        }
    }
}

#[derive(Debug, Default, Clone, Copy, PartialEq, Eq, Structural)]
pub struct DecoderStats {
    pub frames_submitted: u64,
    pub frames_emitted: u64,
    pub frames_dropped: u64,
    pub errors: u64,
}

/// What is known of a decoded frame. Its pixels stay where the hardware put them.
#[derive(Debug, Clone, Copy, PartialEq, Eq, Structural)]
pub struct DecodedFrame {
    pub width: u32,
    pub height: u32,
    pub format: FrameFormat,
    pub pts_us: u64,
    pub decode_us: u32,
}

/// What waiting for a coded frame came to.
#[derive(Debug)]
pub enum Waited {
    Frame(EncodedFrame),
    TimedOut,
    /// The encoder is gone.
    Closed,
}

impl Waited {
    pub open spec fn meaning(self) -> Result<EncodedFrame, CodecError> {
        match self {
            Waited::Frame(frame) => Ok(frame),
            Waited::TimedOut => Err(CodecError::Timeout),
            Waited::Closed => Err(CodecError::Closed),
        }
    }

    fn told(self) -> (r: Result<EncodedFrame, CodecError>)
        ensures
            r == self.meaning(),
    {
        match self {
            Waited::Frame(frame) => Ok(frame),
            Waited::TimedOut => Err(CodecError::Timeout),
            Waited::Closed => Err(CodecError::Closed),
        }
    }
}

/// Waiting that ends without a frame is a failure, and tells the two ways to end so apart.
pub proof fn only_frames_are_no_failure(waited: Waited)
    ensures
        waited.meaning() is Ok <==> waited is Frame,
        waited matches Waited::Frame(frame) ==> waited.meaning()->Ok_0 == frame,
        waited.meaning() matches Err(e) ==> (e is Timeout <==> waited is TimedOut) && (e is Closed
            <==> waited is Closed),
{
}

/// The words of an error say what failed and with which number, the number last.
pub proof fn errors_say_what_failed(error: &CodecError, s: String)
    requires
        call_ensures(CodecError::message, (error,), s),
    ensures
        *error matches CodecError::Unsupported(reason) ==> crate::text::says(s@, reason@),
        *error matches CodecError::SessionCreate { what, status } ==> crate::text::says_both(
            s@,
            what@,
            crate::text::signed(status as int),
        ),
        *error matches CodecError::Property { key, status } ==> crate::text::says_both(
            s@,
            key@,
            crate::text::signed(status as int),
        ),
        *error matches CodecError::Encode(status) ==> crate::text::says(
            s@,
            crate::text::signed(status as int),
        ),
        *error matches CodecError::Decode(status) ==> crate::text::says(
            s@,
            crate::text::signed(status as int),
        ),
        *error matches CodecError::Bitstream(e) ==> crate::text::says(s@, e.text()),
        *error matches CodecError::System { what, detail } ==> crate::text::says_both(
            s@,
            what@,
            detail@,
        ),
{
    let none = Seq::<char>::empty();
    match *error {
        CodecError::Unsupported(reason) => {
            crate::text::parts_are_said(
                "phần cứng không hỗ trợ cấu hình này ("@,
                reason@,
                none,
                none,
                ")"@,
            );
        },
        CodecError::SessionCreate { what, status } => {
            crate::text::parts_are_said(
                "không tạo được phiên "@,
                what@,
                ": OSStatus "@,
                crate::text::signed(status as int),
                none,
            );
        },
        CodecError::Property { key, status } => {
            crate::text::parts_are_said(
                "không đặt được thuộc tính "@,
                key@,
                ": OSStatus "@,
                crate::text::signed(status as int),
                none,
            );
        },
        CodecError::Encode(status) => {
            crate::text::parts_are_said(
                "lỗi mã hoá: OSStatus "@,
                crate::text::signed(status as int),
                none,
                none,
                none,
            );
        },
        CodecError::Decode(status) => {
            crate::text::parts_are_said(
                "lỗi giải mã: OSStatus "@,
                crate::text::signed(status as int),
                none,
                none,
                none,
            );
        },
        CodecError::Bitstream(e) => {
            crate::text::parts_are_said("bitstream hỏng: "@, e.text(), none, none, none);
        },
        CodecError::System { what, detail } => {
            crate::text::parts_are_said("lỗi hệ thống khi "@, what@, ": "@, detail@, none);
        },
        _ => {},
    }
}

/// What can be encoded: HEVC before H.264, and nothing else.
pub proof fn hevc_comes_before_h264(r: Vec<Codec>)
    requires
        call_ensures(encodable, (), r),
    ensures
        r@.len() == 2,
        r@[0] is Hevc,
        r@[1] is H264,
{
}

/// What can be decoded, and how deep and how coarse the colours of each format are.
pub proof fn formats_have_their_depth(
    r: Vec<Codec>,
    format: FrameFormat,
    depth: u32,
    shift: (u32, u32),
)
    requires
        call_ensures(decodable, (), r),
        call_ensures(FrameFormat::bit_depth, (format,), depth),
        call_ensures(FrameFormat::chroma_shift, (format,), shift),
    ensures
        r@.len() == 2 && r@[0] is Hevc && r@[1] is H264,
        format is Nv12VideoRange ==> depth == 8 && shift.0 == 1 && shift.1 == 1,
        format is P210VideoRange ==> depth == 10 && shift.0 == 1 && shift.1 == 0,
{
}

} // verus!
