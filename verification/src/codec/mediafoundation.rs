//! Coding and decoding with Media Foundation.
//!
//! The hardware takes NV12 only, so the colour is always 4:2:0, and every frame is converted
//! first. A hardware encoder works by invitation: it says when it wants a frame and when it has
//! one. The transforms belong to the caller; the bookkeeping round them is here.

use std::collections::HashMap;

use vstd::prelude::*;
use vstd::string::StringExecFns;

use crate::codec::annexb::{push_nalu, NaluClass};
use crate::codec::mf_params::{
    attribute_pair, color_space, hundred_ns, ColorUsage, NominalRange,
};
use crate::codec::nalu::holds_class;
use crate::codec::{
    CodecError, DecodedFrame, DecoderStats, EncodedFrame, EncoderConfig, EncoderStats, FrameFormat,
    Waited,
};
use crate::number::{count, elapsed_us};
use crate::protocol::control::{ChromaSubsampling, Codec};
use crate::text::push_decimal;

verus! {

broadcast use vstd::std_specs::hash::group_hash_axioms;

/// First field of `MFVideoFormat_H264`.
pub const H264_SUBTYPE: u32 = 0x3436_3248;

/// First field of `MFVideoFormat_HEVC`.
pub const HEVC_SUBTYPE: u32 = 0x4356_4548;

/// First field of `MFVideoFormat_NV12`.
pub const NV12_SUBTYPE: u32 = 0x3231_564e;

pub open spec fn subtype_of(codec: Codec) -> Option<u32> {
    match codec {
        Codec::H264 => Some(H264_SUBTYPE),
        Codec::Hevc => Some(HEVC_SUBTYPE),
        Codec::Av1 => None,
    }
}

/// The number that Media Foundation has for a codec.
pub fn subtype(codec: Codec) -> (r: Result<u32, CodecError>)
    ensures
        match r {
            Ok(n) => subtype_of(codec) == Some(n),
            Err(CodecError::Unsupported(reason)) => subtype_of(codec) is None && reason@
                == "AV1 chưa hỗ trợ"@,
            Err(_) => false,
        },
{
    match codec {
        Codec::H264 => Ok(H264_SUBTYPE),
        Codec::Hevc => Ok(HEVC_SUBTYPE),
        Codec::Av1 => Err(CodecError::Unsupported("AV1 chưa hỗ trợ".to_owned())),
    }
}

/// The codecs that a machine has a transform for, the preferred one first.
pub open spec fn codecs(started: bool, hevc: bool, h264: bool) -> Seq<Codec> {
    (if started && hevc {
        seq![Codec::Hevc]
    } else {
        seq![]
    }) + (if started && h264 {
        seq![Codec::H264]
    } else {
        seq![]
    })
}

fn available(started: bool, hevc: bool, h264: bool) -> (r: Vec<Codec>)
    ensures
        r@ == codecs(started, hevc, h264),
{
    let mut r: Vec<Codec> = Vec::new();
    if started && hevc {
        r.push(Codec::Hevc);
    }
    if started && h264 {
        r.push(Codec::H264);
    }
    assert(r@ =~= codecs(started, hevc, h264));
    r
}

/// Codecs that this machine decodes: `hevc` and `h264` are whether the system lists a synchronous
/// decoder for them. Windows brings none for HEVC.
pub fn decodable(started: bool, hevc: bool, h264: bool) -> (r: Vec<Codec>)
    ensures
        r@ == codecs(started, hevc, h264),
{
    available(started, hevc, h264)
}

/// Codecs that this machine encodes in hardware.
pub fn encodable(started: bool, hevc: bool, h264: bool) -> (r: Vec<Codec>)
    ensures
        r@ == codecs(started, hevc, h264),
{
    available(started, hevc, h264)
}

/// Whether every attempt before `n` failed.
pub open spec fn failed_up_to(outcomes: Seq<Result<(), String>>, n: int) -> bool {
    forall|j: int| 0 <= j < n ==> #[trigger] outcomes[j] is Err
}

fn first_success(outcomes: &[Result<(), String>]) -> (r: Option<usize>)
    ensures
        match r {
            Some(i) => i < outcomes@.len() && outcomes@[i as int] is Ok && failed_up_to(
                outcomes@,
                i as int,
            ),
            None => failed_up_to(outcomes@, outcomes@.len() as int),
        },
{
    let mut i: usize = 0;
    while i < outcomes.len()
        invariant
            i <= outcomes@.len(),
            failed_up_to(outcomes@, i as int),
        decreases outcomes@.len() - i,
    {
        if outcomes[i].is_ok() {
            return Some(i);
        }
        i += 1;
    }
    None
}

fn reason_of(outcome: &Result<(), String>) -> (r: String)
    ensures
        r@ == (match *outcome {
            Ok(()) => ""@,
            Err(reason) => reason@,
        }),
{
    match outcome {
        Ok(()) => "".to_owned(),
        Err(reason) => reason.as_str().to_owned(),
    }
}

/// Which transform is taken of the `count` that the system listed. `outcomes` are the attempts to
/// make one, in the system's order.
pub fn activate_first(count: u32, outcomes: &[Result<(), String>], what: &str) -> (r: Result<
    usize,
    CodecError,
>)
    ensures
        match r {
            Ok(i) => count > 0 && i < outcomes@.len() && outcomes@[i as int] is Ok && failed_up_to(
                outcomes@,
                i as int,
            ),
            Err(CodecError::Unsupported(reason)) => (count == 0 && reason@ == "máy này không có "@
                + what@) || (count > 0 && outcomes@.len() == 0 && reason@
                == "không khởi tạo được "@ + what@),
            Err(CodecError::System { what: doing, detail }) => count > 0 && outcomes@.len() > 0
                && failed_up_to(outcomes@, outcomes@.len() as int) && doing@
                == "khởi tạo transform"@ && detail@ == outcomes@.last()->Err_0@,
            Err(_) => false,
        },
{
    if count == 0 {
        let mut s: String = "máy này không có ".to_owned();
        s.append(what);
        return Err(CodecError::Unsupported(s));
    }
    match first_success(outcomes) {
        Some(i) => Ok(i),
        None => {
            if outcomes.len() == 0 {
                let mut s: String = "không khởi tạo được ".to_owned();
                s.append(what);
                return Err(CodecError::Unsupported(s));
            }
            let last = &outcomes[outcomes.len() - 1];
            assert(outcomes@[outcomes@.len() - 1] is Err);
            Err(CodecError::System { what: "khởi tạo transform", detail: reason_of(last) })
        },
    }
}

#[derive(Debug, Clone, Copy, PartialEq, Eq, Structural)]
pub enum Driver {
    Hardware,
    /// The renderer in software: slow, but there on machines without a graphics card.
    Warp,
}

/// The drivers to try for a device, in this order.
pub fn drivers() -> (r: Vec<Driver>)
    ensures
        r@ == seq![Driver::Hardware, Driver::Warp],
{
    vec![Driver::Hardware, Driver::Warp]
}

/// Which driver the device has. `outcomes` are the attempts in the order of [`drivers`]; none
/// comes after a success.
pub fn create_device(outcomes: &[Result<(), String>]) -> (r: Result<Driver, CodecError>)
    requires
        outcomes@.len() <= 2,
    ensures
        match r {
            Ok(Driver::Hardware) => outcomes@.len() > 0 && outcomes@[0] is Ok,
            Ok(Driver::Warp) => outcomes@.len() > 1 && outcomes@[0] is Err && outcomes@[1] is Ok,
            Err(CodecError::System { what, detail }) => failed_up_to(
                outcomes@,
                outcomes@.len() as int,
            ) && what@ == "mở device D3D11"@ && detail@ == (if outcomes@.len() == 0 {
                ""@
            } else {
                outcomes@.last()->Err_0@
            }),
            Err(_) => false,
        },
{
    match first_success(outcomes) {
        Some(i) => if i == 0 {
            Ok(Driver::Hardware)
        } else {
            assert(outcomes@[0] is Err);
            Ok(Driver::Warp)
        },
        None => {
            let detail = if outcomes.len() == 0 {
                "".to_owned()
            } else {
                assert(outcomes@[outcomes@.len() - 1] is Err);
                reason_of(&outcomes[outcomes.len() - 1])
            };
            Err(CodecError::System { what: "mở device D3D11", detail })
        },
    }
}

/// The output type to settle on: the first that is NV12. `None` stands for a type that does not
/// say what it is.
pub fn choose_output(subtypes: &[Option<u32>]) -> (r: Result<usize, CodecError>)
    ensures
        match r {
            Ok(i) => i < subtypes@.len() && subtypes@[i as int] == Some(NV12_SUBTYPE) && forall|
                j: int,
            |
                0 <= j < i ==> #[trigger] subtypes@[j] != Some(NV12_SUBTYPE),
            Err(CodecError::Unsupported(reason)) => reason@
                == "bộ giải mã không chào định dạng NV12 nào"@ && forall|j: int|
                0 <= j < subtypes@.len() ==> #[trigger] subtypes@[j] != Some(NV12_SUBTYPE),
            Err(_) => false,
        },
{
    let mut i: usize = 0;
    while i < subtypes.len()
        invariant
            i <= subtypes@.len(),
            forall|j: int| 0 <= j < i ==> #[trigger] subtypes@[j] != Some(NV12_SUBTYPE),
        decreases subtypes@.len() - i,
    {
        match subtypes[i] {
            Some(n) => {
                if n == NV12_SUBTYPE {
                    return Ok(i);
                }
            },
            None => {},
        }
        i += 1;
    }
    Err(CodecError::Unsupported("bộ giải mã không chào định dạng NV12 nào".to_owned()))
}

/// What the decoder is to be asked next.
#[derive(Debug, Clone, Copy, PartialEq, Eq, Structural)]
pub enum Next {
    /// Take a frame out.
    Pull,
    /// Settle the output type.
    Negotiate,
    /// This access unit is done; a frame, or none.
    Done(Option<DecodedFrame>),
}

/// A call round a decoder that failed without being the decoder's own refusal. None of these is
/// counted as an error of the stream.
#[derive(Debug, Clone, Copy, PartialEq, Eq, Structural)]
pub enum Fault {
    InputBuffer,
    InputLock,
    InputLength,
    InputSample,
    InputAttach,
    InputTime,
    StreamInfo,
    OutputBuffer,
    OutputSample,
    OutputAttach,
    FrameBuffer,
    FrameNotOnGpu,
    FrameTexture,
}

impl Fault {
    pub open spec fn words(self) -> Seq<char> {
        match self {
            Fault::InputBuffer => "cấp buffer cho dữ liệu nén"@,
            Fault::InputLock => "khoá buffer dữ liệu nén"@,
            Fault::InputLength => "đặt độ dài buffer"@,
            Fault::InputSample => "tạo sample"@,
            Fault::InputAttach => "gắn buffer vào sample"@,
            Fault::InputTime => "đặt timestamp cho sample"@,
            Fault::StreamInfo => "hỏi thông tin luồng ra"@,
            Fault::OutputBuffer => "cấp buffer cho frame ra"@,
            Fault::OutputSample => "cấp sample cho frame ra"@,
            Fault::OutputAttach => "gắn buffer vào sample ra"@,
            Fault::FrameBuffer => "lấy buffer của frame đã giải mã"@,
            Fault::FrameNotOnGpu => "frame đã giải mã không nằm trên GPU"@,
            Fault::FrameTexture => "lấy texture của frame đã giải mã"@,
        }
    }

    fn what(self) -> (r: &'static str)
        ensures
            r@ == self.words(),
    {
        match self {
            Fault::InputBuffer => "cấp buffer cho dữ liệu nén",
            Fault::InputLock => "khoá buffer dữ liệu nén",
            Fault::InputLength => "đặt độ dài buffer",
            Fault::InputSample => "tạo sample",
            Fault::InputAttach => "gắn buffer vào sample",
            Fault::InputTime => "đặt timestamp cho sample",
            Fault::StreamInfo => "hỏi thông tin luồng ra",
            Fault::OutputBuffer => "cấp buffer cho frame ra",
            Fault::OutputSample => "cấp sample cho frame ra",
            Fault::OutputAttach => "gắn buffer vào sample ra",
            Fault::FrameBuffer => "lấy buffer của frame đã giải mã",
            Fault::FrameNotOnGpu => "frame đã giải mã không nằm trên GPU",
            Fault::FrameTexture => "lấy texture của frame đã giải mã",
        }
    }
}

/// An error of the system, with what was being done.
pub open spec fn is_system(error: CodecError, doing: Seq<char>, reason: Seq<char>) -> bool {
    match error {
        CodecError::System { what, detail } => what@ == doing && detail@ == reason,
        _ => false,
    }
}

/// What putting an access unit in came to.
#[derive(Debug)]
pub enum Fed {
    Taken,
    /// The decoder did not take it.
    Refused(String),
    /// No sample could be made of it.
    Unmade(Fault, String),
}

/// What taking a frame out came to.
#[derive(Debug)]
pub enum Pulled {
    /// A frame, ready to be drawn.
    Frame,
    NeedInput,
    StreamChange,
    /// The decoder failed.
    Failed(String),
    /// Nothing could be asked of the decoder, or its frame could not be used.
    Unusable(Fault, String),
}

/// `MF_E_TRANSFORM_NEED_MORE_INPUT`.
pub const NEED_MORE_INPUT: u32 = 0xc00d_6d72;

/// `MF_E_TRANSFORM_STREAM_CHANGE`.
pub const STREAM_CHANGE: u32 = 0xc00d_6d61;

/// What the decoder's answer means: whether a sample came with it, or the number and the text of
/// an error.
pub fn answered(answer: Result<bool, (u32, String)>) -> (r: Pulled)
    ensures
        r == (match answer {
            Ok(sample) => if sample {
                Pulled::Frame
            } else {
                Pulled::NeedInput
            },
            Err((code, detail)) => if code == NEED_MORE_INPUT {
                Pulled::NeedInput
            } else if code == STREAM_CHANGE {
                Pulled::StreamChange
            } else {
                Pulled::Failed(detail)
            },
        }),
{
    match answer {
        Ok(true) => Pulled::Frame,
        Ok(false) => Pulled::NeedInput,
        Err((code, detail)) => if code == NEED_MORE_INPUT {
            Pulled::NeedInput
        } else if code == STREAM_CHANGE {
            Pulled::StreamChange
        } else {
            Pulled::Failed(detail)
        },
    }
}

/// `MFT_OUTPUT_STREAM_PROVIDES_SAMPLES`.
pub const PROVIDES_SAMPLES: u32 = 0x100;

/// How large a buffer a transform must be given for its output; `None` where it brings its own.
pub fn output_buffer(flags: u32, size: u32) -> (r: Option<u32>)
    ensures
        r == (if flags / PROVIDES_SAMPLES % 2 == 1 {
            None
        } else {
            Some(at_least_one(size))
        }),
{
    if flags / PROVIDES_SAMPLES % 2 == 1 {
        None
    } else if size < 1 {
        Some(1)
    } else {
        Some(size)
    }
}

/// What is set on a decoder.
#[derive(Debug, Clone, Copy, PartialEq, Eq, Structural)]
pub struct DecoderSettings {
    pub subtype: u32,
    pub frame_size: u64,
    /// Frames are not to be gathered. Not every decoder knows this.
    pub low_latency: bool,
}

/// What to set on a decoder. The size is a guess; the stream has the real one.
pub fn decoder_settings(codec: Codec, width: u32, height: u32) -> (r: Result<
    DecoderSettings,
    CodecError,
>)
    ensures
        match r {
            Ok(s) => subtype_of(codec) == Some(s.subtype) && s.frame_size == width * 0x1_0000_0000
                + height && s.low_latency,
            Err(CodecError::Unsupported(reason)) => codec is Av1 && reason@ == "AV1 chưa hỗ trợ"@,
            Err(_) => false,
        },
{
    match subtype(codec) {
        Ok(subtype) => Ok(
            DecoderSettings {
                subtype,
                frame_size: attribute_pair(width, height),
                low_latency: true,
            },
        ),
        Err(e) => Err(e),
    }
}

pub struct MfDecoder {
    codec: Codec,
    width: u32,
    height: u32,
    /// The output type can be settled only once the stream's parameters have been read.
    output_ready: bool,
    /// How often this access unit may still be tried.
    rounds: u8,
    stats: DecoderStats,
    bad_data: bool,
}

impl MfDecoder {
    pub closed spec fn kind(&self) -> Codec {
        self.codec
    }

    pub closed spec fn size(&self) -> (u32, u32) {
        (self.width, self.height)
    }

    pub closed spec fn settled(&self) -> bool {
        self.output_ready
    }

    pub closed spec fn left(&self) -> u8 {
        self.rounds
    }

    pub closed spec fn counts(&self) -> DecoderStats {
        self.stats
    }

    pub closed spec fn refused(&self) -> bool {
        self.bad_data
    }

    /// The counters can grow once more.
    pub open spec fn can_count(&self) -> bool {
        self.counts().frames_submitted < u64::MAX && self.counts().frames_emitted < u64::MAX
            && self.counts().frames_dropped < u64::MAX && self.counts().errors < u64::MAX
    }

    /// The counters and the flag after an access unit that gave no picture. Once frames have come
    /// out that means that the data was refused: without B-frames nothing is held back.
    pub open spec fn without_output(&self, before: &Self) -> bool {
        let c = before.counts();
        self.counts() == (DecoderStats {
            frames_dropped: (c.frames_dropped + 1) as u64,
            errors: (c.errors + if c.frames_emitted > 0 {
                1int
            } else {
                0int
            }) as u64,
            ..c
        }) && self.refused() == (before.refused() || c.frames_emitted > 0)
    }

    /// `started` is whether the system's part is up, `found` what the decoder that was found says
    /// of textures, where 0 means that it would decode into main memory, and `prepared` what
    /// setting it up came to.
    pub fn new(
        codec: Codec,
        width: u32,
        height: u32,
        started: Result<(), CodecError>,
        found: Result<u32, CodecError>,
        prepared: Result<(), CodecError>,
    ) -> (r: Result<Self, CodecError>)
        ensures
            match started {
                Err(e) => r == Err::<Self, CodecError>(e),
                Ok(()) => if codec is Av1 {
                    r matches Err(CodecError::Unsupported(reason)) && reason@
                        == "AV1 chưa hỗ trợ"@
                } else {
                    match found {
                        Err(e) => r == Err::<Self, CodecError>(e),
                        Ok(d3d11) => if d3d11 == 0 {
                            r matches Err(CodecError::Unsupported(reason)) && reason@
                                == "bộ giải mã của máy này không nhận texture D3D11"@
                        } else {
                            match prepared {
                                Err(e) => r == Err::<Self, CodecError>(e),
                                Ok(()) => r matches Ok(d) && d.kind() == codec && d.size() == (
                                    width,
                                    height,
                                ) && !d.settled() && !d.refused() && d.counts() == (DecoderStats {
                                    frames_submitted: 0,
                                    frames_emitted: 0,
                                    frames_dropped: 0,
                                    errors: 0,
                                }),
                            }
                        },
                    }
                },
            },
    {
        if let Err(e) = started {
            return Err(e);
        }
        if let Err(e) = subtype(codec) {
            return Err(e);
        }
        match found {
            Err(e) => {
                return Err(e);
            },
            Ok(d3d11) => {
                if d3d11 == 0 {
                    return Err(
                        CodecError::Unsupported(
                            "bộ giải mã của máy này không nhận texture D3D11".to_owned(),
                        ),
                    );
                }
            },
        }
        if let Err(e) = prepared {
            return Err(e);
        }
        Ok(
            MfDecoder {
                codec,
                width,
                height,
                output_ready: false,
                rounds: 0,
                stats: DecoderStats {
                    frames_submitted: 0,
                    frames_emitted: 0,
                    frames_dropped: 0,
                    errors: 0,
                },
                bad_data: false,
            },
        )
    }

    pub fn stats(&self) -> (r: DecoderStats)
        ensures
            r == self.counts(),
    {
        self.stats
    }

    pub fn frame_format(&self) -> (r: FrameFormat)
        ensures
            r == FrameFormat::Nv12VideoRange,
    {
        FrameFormat::Nv12VideoRange
    }

    pub fn codec(&self) -> (r: Codec)
        ensures
            r == self.kind(),
    {
        self.codec
    }

    /// Whether data was refused since the last call.
    pub fn take_bad_data(&mut self) -> (r: bool)
        ensures
            r == old(self).refused(),
            !final(self).refused(),
            final(self).counts() == old(self).counts(),
            final(self).kind() == old(self).kind(),
            final(self).size() == old(self).size(),
            final(self).settled() == old(self).settled(),
            final(self).left() == old(self).left(),
    {
        let was: bool = self.bad_data;
        self.bad_data = false;
        was
    }

    fn note_no_output(&mut self)
        requires
            old(self).can_count(),
        ensures
            final(self).without_output(old(self)),
            final(self).kind() == old(self).kind(),
            final(self).size() == old(self).size(),
            final(self).settled() == old(self).settled(),
            final(self).left() == old(self).left(),
    {
        self.stats.frames_dropped = self.stats.frames_dropped + 1;
        if self.stats.frames_emitted > 0 {
            self.stats.errors = self.stats.errors + 1;
            self.bad_data = true;
        }
    }

    /// What to ask next; with no round left the access unit is over.
    fn go_on(&mut self) -> (r: Next)
        requires
            old(self).can_count(),
        ensures
            old(self).left() > 0 ==> *final(self) == *old(self) && r == (if old(self).settled() {
                Next::Pull
            } else {
                Next::Negotiate
            }),
            old(self).left() == 0 ==> r == Next::Done(None) && final(self).without_output(
                old(self),
            ) && final(self).kind() == old(self).kind() && final(self).size() == old(self).size()
                && final(self).settled() == old(self).settled() && final(self).left() == 0,
    {
        if self.rounds > 0 {
            if self.output_ready {
                Next::Pull
            } else {
                Next::Negotiate
            }
        } else {
            self.note_no_output();
            Next::Done(None)
        }
    }

    /// An access unit went in, or did not. There are two rounds: the first one may go into
    /// settling the output type. Every unit counts as submitted; only one that the decoder refused
    /// counts as an error.
    pub fn decode(&mut self, fed: Fed) -> (r: Result<Next, CodecError>)
        requires
            old(self).can_count(),
        ensures
            final(self).kind() == old(self).kind(),
            final(self).size() == old(self).size(),
            final(self).settled() == old(self).settled(),
            final(self).refused() == old(self).refused(),
            final(self).counts() == (DecoderStats {
                frames_submitted: (old(self).counts().frames_submitted + 1) as u64,
                errors: (old(self).counts().errors + if fed is Refused {
                    1int
                } else {
                    0int
                }) as u64,
                ..old(self).counts()
            }),
            match fed {
                Fed::Taken => r == Ok::<Next, CodecError>(
                    if old(self).settled() {
                        Next::Pull
                    } else {
                        Next::Negotiate
                    },
                ) && final(self).left() == 2,
                Fed::Refused(reason) => r matches Err(e) && is_system(
                    e,
                    "nạp dữ liệu vào bộ giải mã"@,
                    reason@,
                ),
                Fed::Unmade(fault, reason) => r matches Err(e) && is_system(
                    e,
                    fault.words(),
                    reason@,
                ),
            },
    {
        self.stats.frames_submitted = self.stats.frames_submitted + 1;
        match fed {
            Fed::Taken => {
                self.rounds = 2;
                if self.output_ready {
                    Ok(Next::Pull)
                } else {
                    Ok(Next::Negotiate)
                }
            },
            Fed::Refused(detail) => {
                self.stats.errors = self.stats.errors + 1;
                Err(CodecError::System { what: "nạp dữ liệu vào bộ giải mã", detail })
            },
            Fed::Unmade(fault, detail) => Err(CodecError::System { what: fault.what(), detail }),
        }
    }

    /// Settles the output type: the one that [`choose_output`] picks of `subtypes`. `size` is what
    /// that type says of the frame: the stream's real size, where [`MfDecoder::new`] had a guess.
    /// It counts even where the type could not be `set`.
    pub fn negotiate_output(
        &mut self,
        subtypes: &[Option<u32>],
        size: Option<u64>,
        set: Result<(), String>,
    ) -> (r: Result<Next, CodecError>)
        requires
            old(self).can_count(),
            old(self).left() > 0,
        ensures
            final(self).kind() == old(self).kind(),
            ({
                let offered = subtypes@.contains(Some(NV12_SUBTYPE));
                &&& final(self).size() == (match size {
                    Some(n) if offered => ((n / 0x1_0000_0000) as u32, (n % 0x1_0000_0000) as u32),
                    _ => old(self).size(),
                })
                &&& !offered ==> *final(self) == *old(self) && (r matches Err(
                    CodecError::Unsupported(reason),
                ) && reason@ == "bộ giải mã không chào định dạng NV12 nào"@)
                &&& offered ==> match set {
                    Err(reason) => final(self).settled() == old(self).settled()
                        && final(self).left() == old(self).left()
                        && final(self).counts() == old(self).counts() && final(self).refused() == old(self).refused() && (r matches Err(e)
                        && is_system(e, "chốt kiểu đầu ra của bộ giải mã"@, reason@)),
                    Ok(()) => final(self).settled() && final(self).left() == old(self).left() - 1
                        && (old(self).left() > 1 ==> r == Ok::<Next, CodecError>(Next::Pull)
                        && final(self).counts() == old(self).counts() && final(self).refused()
                        == old(self).refused()) && (old(self).left() == 1 ==> r == Ok::<
                        Next,
                        CodecError,
                    >(Next::Done(None)) && final(self).without_output(old(self))),
                }
            }),
    {
        match choose_output(subtypes) {
            Ok(i) => {
                assert(subtypes@[i as int] == Some(NV12_SUBTYPE));
            },
            Err(e) => {
                return Err(e);
            },
        }
        match size {
            Some(n) => {
                self.width = (n / 0x1_0000_0000) as u32;
                self.height = (n % 0x1_0000_0000) as u32;
            },
            None => {},
        }
        if let Err(detail) = set {
            return Err(CodecError::System { what: "chốt kiểu đầu ra của bộ giải mã", detail });
        }
        self.output_ready = true;
        self.rounds = self.rounds - 1;
        Ok(self.go_on())
    }

    /// A frame was taken out, or not.
    pub fn pull(&mut self, pulled: Pulled, pts_us: u64, decode_us: u32) -> (r: Result<
        Next,
        CodecError,
    >)
        requires
            old(self).can_count(),
        ensures
            final(self).kind() == old(self).kind(),
            final(self).size() == old(self).size(),
            final(self).left() == old(self).left(),
            final(self).settled() == (old(self).settled() && pulled !is StreamChange),
            match pulled {
                Pulled::Frame => r == Ok::<Next, CodecError>(
                    Next::Done(
                        Some(
                            DecodedFrame {
                                width: old(self).size().0,
                                height: old(self).size().1,
                                format: FrameFormat::Nv12VideoRange,
                                pts_us,
                                decode_us,
                            },
                        ),
                    ),
                ) && !final(self).refused() && final(self).counts() == (DecoderStats {
                    frames_emitted: (old(self).counts().frames_emitted + 1) as u64,
                    ..old(self).counts()
                }),
                Pulled::NeedInput => r == Ok::<Next, CodecError>(Next::Done(None)) && final(
                    self).without_output(old(self)),
                Pulled::StreamChange => r == Ok::<Next, CodecError>(Next::Negotiate) && final(
                    self).counts() == old(self).counts() && final(self).refused() == old(
                    self).refused(),
                Pulled::Failed(reason) => final(self).refused() == old(self).refused() && final(
                    self).counts() == (DecoderStats {
                    errors: (old(self).counts().errors + 1) as u64,
                    ..old(self).counts()
                }) && (r matches Err(e) && is_system(e, "lấy frame ra khỏi bộ giải mã"@, reason@)),
                Pulled::Unusable(fault, reason) => final(self).refused() == old(self).refused()
                    && final(self).counts() == old(self).counts() && (r matches Err(e)
                    && is_system(e, fault.words(), reason@)),
            },
    {
        match pulled {
            Pulled::Frame => {
                self.stats.frames_emitted = self.stats.frames_emitted + 1;
                self.bad_data = false;
                Ok(
                    Next::Done(
                        Some(
                            DecodedFrame {
                                width: self.width,
                                height: self.height,
                                format: FrameFormat::Nv12VideoRange,
                                pts_us,
                                decode_us,
                            },
                        ),
                    ),
                )
            },
            Pulled::NeedInput => {
                self.note_no_output();
                Ok(Next::Done(None))
            },
            Pulled::StreamChange => {
                self.output_ready = false;
                Ok(Next::Negotiate)
            },
            Pulled::Failed(detail) => {
                self.stats.errors = self.stats.errors + 1;
                Err(CodecError::System { what: "lấy frame ra khỏi bộ giải mã", detail })
            },
            Pulled::Unusable(fault, detail) => Err(
                CodecError::System { what: fault.what(), detail },
            ),
        }
    }
}

/// How many frames may wait for an invitation: enough to fill the hardware's pipe, not enough for
/// a stuck one to eat all video memory.
pub const MAX_PENDING: usize = 4;

/// How many submissions may stay without an answer before they are forgotten.
pub const MAX_UNANSWERED: usize = 256;

/// A frame that waits. `texture` is the caller's name for it.
#[derive(Debug, Clone, Copy, PartialEq, Eq, Structural)]
pub struct Job {
    pub texture: u64,
    pub pts: i64,
    pub force_key: bool,
}

/// A coded frame as the transform gave it: its time and its mark as a keyframe may be missing.
#[derive(Debug)]
pub struct Output {
    pub pts: Option<i64>,
    pub clean_point: Option<u32>,
    pub data: Vec<u8>,
}

/// What is set on an encoder through its codec interface.
#[derive(Debug, Clone, Copy, PartialEq, Eq, Structural)]
pub enum CodecValue {
    /// Frames are not to be gathered.
    LowLatency(bool),
    /// The rate is kept all the time, not on average.
    ConstantBitRate,
    MeanBitRate(u32),
    /// Frames between two keyframes.
    GopSize(u32),
}

/// What is set on a media type.
#[derive(Debug, Clone, Copy, PartialEq, Eq, Structural)]
pub enum TypeValue {
    Video,
    Subtype(u32),
    AverageBitRate(u32),
    FrameSize(u64),
    FrameRate(u64),
    PixelAspect(u64),
    Progressive,
    SamplesIndependent,
    /// Compresses much better than the baseline. A transform that does not know it goes without.
    HighProfile,
}

/// A pixel as wide as high.
pub const SQUARE_PIXELS: u64 = 0x1_0000_0001;

/// A product that stays at the largest `u32`.
pub open spec fn saturated(n: int) -> u32 {
    if n > u32::MAX {
        u32::MAX
    } else {
        n as u32
    }
}

fn saturating_product(a: u32, b: u32) -> (r: u32)
    ensures
        r == saturated(a * b),
{
    proof {
        assert(0 <= a * b <= 0xffff_ffff * 0xffff_ffff) by (nonlinear_arith)
            requires
                0 <= a <= 0xffff_ffff,
                0 <= b <= 0xffff_ffff,
        ;
    }
    let wide: u64 = a as u64 * b as u64;
    if wide > u32::MAX as u64 {
        u32::MAX
    } else {
        wide as u32
    }
}

pub open spec fn at_least_one(n: u32) -> u32 {
    if n < 1 {
        1
    } else {
        n
    }
}

fn one_at_least(n: u32) -> (r: u32)
    ensures
        r == at_least_one(n),
{
    if n < 1 {
        1
    } else {
        n
    }
}

/// What to set through the codec interface, in this order. A value that the transform does not take
/// costs quality, not the session. Keyframes come when they are asked for, so those that come by
/// themselves are far apart.
pub fn configure_codec_api(config: &EncoderConfig) -> (r: Vec<CodecValue>)
    ensures
        r@ == seq![
            CodecValue::LowLatency(true),
            CodecValue::ConstantBitRate,
            CodecValue::MeanBitRate(saturated(config.target_bitrate_kbps * 1000)),
            CodecValue::GopSize(
                saturated(config.keyframe_interval_secs * at_least_one(config.target_fps)),
            ),
        ],
{
    let fps: u32 = one_at_least(config.target_fps);
    let r = vec![
        CodecValue::LowLatency(true),
        CodecValue::ConstantBitRate,
        CodecValue::MeanBitRate(saturating_product(config.target_bitrate_kbps, 1000)),
        CodecValue::GopSize(saturating_product(config.keyframe_interval_secs, fps)),
    ];
    r
}

pub open spec fn size_value(config: EncoderConfig) -> TypeValue {
    TypeValue::FrameSize((config.width * 0x1_0000_0000 + config.height) as u64)
}

pub open spec fn rate_value(config: EncoderConfig) -> TypeValue {
    TypeValue::FrameRate((at_least_one(config.target_fps) * 0x1_0000_0000 + 1) as u64)
}

/// What to set on the type of an encoder's output, in this order.
pub fn set_output_type(config: &EncoderConfig) -> (r: Result<Vec<TypeValue>, CodecError>)
    ensures
        match subtype_of(config.codec) {
            Some(subtype) => r matches Ok(list) && list@ == seq![
                TypeValue::Video,
                TypeValue::Subtype(subtype),
                TypeValue::AverageBitRate(saturated(config.target_bitrate_kbps * 1000)),
                size_value(*config),
                rate_value(*config),
                TypeValue::PixelAspect(SQUARE_PIXELS),
                TypeValue::Progressive,
            ] + (if config.codec is H264 {
                seq![TypeValue::HighProfile]
            } else {
                seq![]
            }),
            None => r matches Err(CodecError::Unsupported(reason)) && reason@
                == "AV1 chưa hỗ trợ"@,
        },
{
    let subtype: u32 = match subtype(config.codec) {
        Ok(n) => n,
        Err(e) => {
            return Err(e);
        },
    };
    let mut list = vec![
        TypeValue::Video,
        TypeValue::Subtype(subtype),
        TypeValue::AverageBitRate(saturating_product(config.target_bitrate_kbps, 1000)),
        TypeValue::FrameSize(attribute_pair(config.width, config.height)),
        TypeValue::FrameRate(attribute_pair(one_at_least(config.target_fps), 1)),
        TypeValue::PixelAspect(SQUARE_PIXELS),
        TypeValue::Progressive,
    ];
    if config.codec == Codec::H264 {
        list.push(TypeValue::HighProfile);
    }
    assert(list@ =~= seq![
        TypeValue::Video,
        TypeValue::Subtype(subtype),
        TypeValue::AverageBitRate(saturated(config.target_bitrate_kbps * 1000)),
        size_value(*config),
        rate_value(*config),
        TypeValue::PixelAspect(SQUARE_PIXELS),
        TypeValue::Progressive,
    ] + (if config.codec is H264 {
        seq![TypeValue::HighProfile]
    } else {
        seq![]
    }));
    Ok(list)
}

/// What to set on the type of an encoder's input, in this order.
pub fn set_input_type(config: &EncoderConfig) -> (r: Vec<TypeValue>)
    ensures
        r@ == seq![
            TypeValue::Video,
            TypeValue::Subtype(NV12_SUBTYPE),
            size_value(*config),
            rate_value(*config),
            TypeValue::PixelAspect(SQUARE_PIXELS),
            TypeValue::Progressive,
            TypeValue::SamplesIndependent,
        ],
{
    let r = vec![
        TypeValue::Video,
        TypeValue::Subtype(NV12_SUBTYPE),
        TypeValue::FrameSize(attribute_pair(config.width, config.height)),
        TypeValue::FrameRate(attribute_pair(one_at_least(config.target_fps), 1)),
        TypeValue::PixelAspect(SQUARE_PIXELS),
        TypeValue::Progressive,
        TypeValue::SamplesIndependent,
    ];
    r
}

/// How long a frame is shown, in units of 100 ns.
pub fn frame_duration(config: &EncoderConfig) -> (r: i64)
    ensures
        r == 1_000_000u32 / at_least_one(config.target_fps) * 10,
{
    let fps: u32 = one_at_least(config.target_fps);
    proof {
        assert(1_000_000u32 / fps <= 1_000_000) by (nonlinear_arith)
            requires
                fps >= 1,
        ;
    }
    hundred_ns((1_000_000u32 / fps) as u64)
}

/// Whether the bytes begin with a start code.
pub open spec fn opens_with_code(blob: Seq<u8>) -> bool {
    crate::codec::annexb::code_at(blob, 0) != 0
}

/// The parameter sets that an encoder keeps beside its output type, in Annex B form. Most are so
/// already; others get a start code.
pub fn sequence_header(blob: Vec<u8>) -> (r: Vec<u8>)
    ensures
        r@ == (if blob@.len() == 0 || opens_with_code(blob@) {
            blob@
        } else {
            crate::codec::annexb::start_code() + blob@
        }),
{
    let n: usize = blob.len();
    if n == 0 {
        return blob;
    }
    if n >= 3 && blob[0] == 0 && blob[1] == 0 && blob[2] == 1 {
        return blob;
    }
    if n >= 4 && blob[0] == 0 && blob[1] == 0 && blob[2] == 0 && blob[3] == 1 {
        return blob;
    }
    let mut out: Vec<u8> = Vec::new();
    push_nalu(&mut out, blob.as_slice());
    assert(out@ =~= crate::codec::annexb::start_code() + blob@);
    out
}

/// A coded frame with the parameter sets before it, where it is a keyframe that has none.
pub open spec fn completed(
    sets: Seq<u8>,
    codec: Codec,
    data: Seq<u8>,
    keyframe: bool,
) -> Seq<u8> {
    if !keyframe || codec is Av1 || crate::codec::nalu::any_of(
        crate::codec::annexb::units(data, 0),
        codec,
        NaluClass::ParameterSet,
    ) {
        data
    } else {
        sets + data
    }
}

/// The bookkeeping of a hardware encoder.
#[verifier::ext_equal]
pub ghost struct Books {
    /// Invitations that were not used yet.
    pub credits: int,
    /// Frames that wait for one, the oldest first.
    pub queue: Seq<Job>,
    /// When the frame of each time stamp went in.
    pub times: Map<i64, u64>,
    pub counts: EncoderStats,
}

impl Books {
    /// A frame joins the queue; the oldest leaves where it grew too long.
    pub open spec fn joined(self, job: Job, now_us: u64) -> Books {
        let queue = self.queue.push(job);
        let times = self.times.insert(job.pts, now_us);
        let submitted = crate::number::counted(self.counts.frames_submitted, 1);
        if queue.len() > MAX_PENDING {
            Books {
                queue: queue.drop_first(),
                times: times.remove(queue[0].pts),
                counts: EncoderStats {
                    frames_submitted: submitted,
                    frames_dropped: crate::number::counted(
                        self.counts.frames_dropped,
                        1,
                    ),
                    ..self.counts
                },
                ..self
            }
        } else {
            Books {
                queue,
                times,
                counts: EncoderStats { frames_submitted: submitted, ..self.counts },
                ..self
            }
        }
    }

    /// Submissions that nothing came back for are forgotten when there are too many.
    pub open spec fn answered(self, pts: i64) -> Map<i64, u64> {
        let rest = self.times.remove(pts);
        if rest.dom().len() > MAX_UNANSWERED {
            Map::empty()
        } else {
            rest
        }
    }
}

pub struct Pipeline {
    codec: Codec,
    credits: u32,
    pending: Vec<Job>,
    submitted_at: HashMap<i64, u64>,
    parameter_sets: Vec<u8>,
    stats: EncoderStats,
}

impl Pipeline {
    pub closed spec fn kind(&self) -> Codec {
        self.codec
    }

    pub closed spec fn sets(&self) -> Seq<u8> {
        self.parameter_sets@
    }

    pub closed spec fn books(&self) -> Books {
        Books {
            credits: self.credits as int,
            queue: self.pending@,
            times: self.submitted_at@,
            counts: self.stats,
        }
    }

    pub open spec fn wf(&self) -> bool {
        self.books().queue.len() <= MAX_PENDING
    }

    pub fn new(codec: Codec, parameter_sets: Vec<u8>) -> (r: Self)
        ensures
            r.wf(),
            r.kind() == codec,
            r.sets() == parameter_sets@,
            r.books() == (Books {
                credits: 0,
                queue: seq![],
                times: Map::empty(),
                counts: EncoderStats {
                    frames_submitted: 0,
                    frames_emitted: 0,
                    frames_dropped: 0,
                    bytes_emitted: 0,
                    errors: 0,
                },
            }),
    {
        let r = Pipeline {
            codec,
            credits: 0,
            pending: Vec::new(),
            submitted_at: HashMap::new(),
            parameter_sets,
            stats: EncoderStats {
                frames_submitted: 0,
                frames_emitted: 0,
                frames_dropped: 0,
                bytes_emitted: 0,
                errors: 0,
            },
        };
        assert(r.books().times =~= Map::empty());
        assert(r.books().queue =~= seq![]);
        r
    }

    pub fn stats(&self) -> (r: EncoderStats)
        ensures
            r == self.books().counts,
    {
        self.stats
    }

    /// A frame joins the queue. Live pictures lose their worth, so the oldest makes room.
    pub fn submit(&mut self, job: Job, now_us: u64)
        requires
            old(self).wf(),
        ensures
            final(self).wf(),
            final(self).kind() == old(self).kind(),
            final(self).sets() == old(self).sets(),
            final(self).books() == old(self).books().joined(job, now_us),
    {
        self.submitted_at.insert(job.pts, now_us);
        self.pending.push(job);
        if self.pending.len() > MAX_PENDING {
            let ghost queue = self.pending@;
            let stale = self.pending.remove(0);
            self.submitted_at.remove(&stale.pts);
            self.stats.frames_dropped = count(self.stats.frames_dropped, 1);
            assert(self.pending@ =~= queue.drop_first());
        }
        self.stats.frames_submitted = count(self.stats.frames_submitted, 1);
        assert(self.books() =~= old(self).books().joined(job, now_us));
    }

    /// The transform invites one frame more.
    pub fn invited(&mut self)
        requires
            old(self).wf(),
            old(self).books().credits < u32::MAX,
        ensures
            final(self).wf(),
            final(self).kind() == old(self).kind(),
            final(self).sets() == old(self).sets(),
            final(self).books() == (Books {
                credits: old(self).books().credits + 1,
                ..old(self).books()
            }),
    {
        self.credits = self.credits + 1;
        assert(self.books() =~= Books {
            credits: old(self).books().credits + 1,
            ..old(self).books()
        });
    }

    /// The next frame to hand to the transform, as long as there is an invitation and a frame.
    pub fn feed(&mut self) -> (r: Option<Job>)
        requires
            old(self).wf(),
        ensures
            final(self).wf(),
            final(self).kind() == old(self).kind(),
            final(self).sets() == old(self).sets(),
            match r {
                Some(job) => old(self).books().credits > 0 && old(self).books().queue.len() > 0
                    && job == old(self).books().queue[0] && final(self).books() == (Books {
                    credits: old(self).books().credits - 1,
                    queue: old(self).books().queue.drop_first(),
                    ..old(self).books()
                }),
                None => (old(self).books().credits == 0 || old(self).books().queue.len() == 0)
                    && final(self).books() == old(self).books(),
            },
    {
        if self.credits == 0 || self.pending.len() == 0 {
            return None;
        }
        let job = self.pending.remove(0);
        self.credits = self.credits - 1;
        assert(self.pending@ =~= old(self).pending@.drop_first());
        Some(job)
    }

    /// The transform did not take a frame.
    pub fn refused(&mut self, job: Job)
        requires
            old(self).wf(),
        ensures
            final(self).wf(),
            final(self).kind() == old(self).kind(),
            final(self).sets() == old(self).sets(),
            final(self).books() == (Books {
                times: old(self).books().times.remove(job.pts),
                counts: EncoderStats {
                    frames_dropped: crate::number::counted(
                        old(self).books().counts.frames_dropped,
                        1,
                    ),
                    errors: crate::number::counted(
                        old(self).books().counts.errors,
                        1,
                    ),
                    ..old(self).books().counts
                },
                ..old(self).books()
            }),
    {
        self.submitted_at.remove(&job.pts);
        self.stats.frames_dropped = count(self.stats.frames_dropped, 1);
        self.stats.errors = count(self.stats.errors, 1);
        assert(self.books().times =~= old(self).books().times.remove(job.pts));
    }

    /// A frame could not be taken out or read.
    pub fn failed(&mut self)
        requires
            old(self).wf(),
        ensures
            final(self).wf(),
            final(self).kind() == old(self).kind(),
            final(self).sets() == old(self).sets(),
            final(self).books() == (Books {
                counts: EncoderStats {
                    errors: crate::number::counted(
                        old(self).books().counts.errors,
                        1,
                    ),
                    ..old(self).books().counts
                },
                ..old(self).books()
            }),
    {
        self.stats.errors = count(self.stats.errors, 1);
    }

    /// Nobody was there to take a coded frame.
    pub fn undelivered(&mut self)
        requires
            old(self).wf(),
        ensures
            final(self).wf(),
            final(self).kind() == old(self).kind(),
            final(self).sets() == old(self).sets(),
            final(self).books() == (Books {
                counts: EncoderStats {
                    frames_dropped: crate::number::counted(
                        old(self).books().counts.frames_dropped,
                        1,
                    ),
                    ..old(self).books().counts
                },
                ..old(self).books()
            }),
    {
        self.stats.frames_dropped = count(self.stats.frames_dropped, 1);
    }

    fn with_parameter_sets(&self, data: Vec<u8>, keyframe: bool) -> (r: Vec<u8>)
        ensures
            r@ == completed(self.sets(), self.kind(), data@, keyframe),
    {
        if !keyframe || self.parameter_sets.len() == 0 {
            assert(self.parameter_sets@.len() == 0 ==> self.parameter_sets@ + data@ =~= data@);
            return data;
        }
        if self.codec == Codec::Av1 {
            return data;
        }
        if holds_class(data.as_slice(), self.codec, NaluClass::ParameterSet) {
            return data;
        }
        let mut out: Vec<u8> = Vec::new();
        out.extend_from_slice(self.parameter_sets.as_slice());
        out.extend_from_slice(data.as_slice());
        assert(out@ =~= self.parameter_sets@ + data@);
        out
    }

    /// Makes a frame of what the transform gave, and closes the books on it.
    pub fn drain_one(&mut self, output: Output, now_us: u64) -> (r: EncodedFrame)
        requires
            old(self).wf(),
        ensures
            final(self).wf(),
            final(self).kind() == old(self).kind(),
            final(self).sets() == old(self).sets(),
            ({
                let pts: i64 = match output.pts {
                    Some(n) => n,
                    None => 0,
                };
                let data = completed(
                    old(self).sets(),
                    old(self).kind(),
                    output.data@,
                    output.clean_point == Some(1u32),
                );
                let before = old(self).books();
                &&& r.data@ == data
                &&& r.keyframe == (output.clean_point == Some(1u32))
                &&& r.pts_us == (if pts < 0 {
                    0int
                } else {
                    pts as int / 10
                })
                &&& r.encode_us == (if before.times.dom().contains(pts) {
                    crate::number::elapsed(before.times[pts], now_us)
                } else {
                    0
                })
                &&& final(self).books() == (Books {
                    times: before.answered(pts),
                    counts: EncoderStats {
                        frames_emitted: crate::number::counted(
                            before.counts.frames_emitted,
                            1,
                        ),
                        bytes_emitted: crate::number::counted(
                            before.counts.bytes_emitted,
                            data.len(),
                        ),
                        ..before.counts
                    },
                    ..before
                })
            }),
    {
        let pts: i64 = match output.pts {
            Some(n) => n,
            None => 0,
        };
        let keyframe: bool = match output.clean_point {
            Some(n) => n == 1,
            None => false,
        };
        let data = self.with_parameter_sets(output.data, keyframe);
        let encode_us: u32 = match self.submitted_at.remove(&pts) {
            Some(started) => elapsed_us(started, now_us),
            None => 0,
        };
        assert(self.submitted_at@ =~= old(self).submitted_at@.remove(pts));
        if self.submitted_at.len() > MAX_UNANSWERED {
            self.submitted_at.clear();
            assert(self.submitted_at@ =~= Map::empty());
        }
        self.stats.frames_emitted = count(self.stats.frames_emitted, 1);
        self.stats.bytes_emitted = count(self.stats.bytes_emitted, data.len() as u64);
        let pts_us: u64 = if pts < 0 { 0 } else { (pts / 10) as u64 };
        EncodedFrame { data, keyframe, pts_us, encode_us }
    }
}

/// The side of an encoder that takes screen pictures.
pub struct MfEncoder {
    config: EncoderConfig,
    force_keyframe: bool,
}

impl MfEncoder {
    pub closed spec fn wanted(&self) -> EncoderConfig {
        self.config
    }

    /// Whether the next frame shall be a keyframe.
    pub closed spec fn asked(&self) -> bool {
        self.force_keyframe
    }

    /// `prepared` is whether the system's part and the conversion are up, `found` what finding an
    /// encoder and setting it up came to.
    pub fn new(
        config: EncoderConfig,
        prepared: Result<(), CodecError>,
        found: Result<(), CodecError>,
    ) -> (r: Result<Self, CodecError>)
        ensures
            match prepared {
                Err(e) => r == Err::<Self, CodecError>(e),
                Ok(()) => if config.codec is Av1 {
                    r matches Err(CodecError::Unsupported(reason)) && reason@
                        == "AV1 chưa hỗ trợ"@
                } else {
                    match found {
                        Err(e) => r == Err::<Self, CodecError>(e),
                        Ok(()) => r matches Ok(e) && e.wanted() == config && !e.asked(),
                    }
                },
            },
    {
        if let Err(e) = prepared {
            return Err(e);
        }
        if let Err(e) = subtype(config.codec) {
            return Err(e);
        }
        if let Err(e) = found {
            return Err(e);
        }
        Ok(MfEncoder { config, force_keyframe: false })
    }

    /// The colour that comes out: always 4:2:0.
    pub fn actual_chroma(&self) -> (r: ChromaSubsampling)
        ensures
            r is Yuv420,
    {
        ChromaSubsampling::Yuv420
    }

    /// Always: without a hardware encoder there is none at all.
    pub fn is_hardware(&self) -> (r: bool)
        ensures
            r,
    {
        true
    }

    pub fn config(&self) -> (r: &EncoderConfig)
        ensures
            *r == self.wanted(),
    {
        &self.config
    }

    /// The next frame shall be a keyframe: the only way for the picture to recover from a loss.
    pub fn request_keyframe(&mut self)
        ensures
            final(self).asked(),
            final(self).wanted() == old(self).wanted(),
    {
        self.force_keyframe = true;
    }

    /// The rate to set for `kbps`. Not every transform lets its rate be changed.
    pub fn set_bitrate(&self, kbps: u32, adjustable: bool) -> (r: Result<u32, CodecError>)
        ensures
            match r {
                Ok(n) => adjustable && n == saturated(kbps * 1000),
                Err(CodecError::Unsupported(reason)) => !adjustable && reason@
                    == "MFT này không cho đổi bitrate giữa chừng"@,
                Err(_) => false,
            },
    {
        if !adjustable {
            return Err(
                CodecError::Unsupported("MFT này không cho đổi bitrate giữa chừng".to_owned()),
            );
        }
        Ok(saturating_product(kbps, 1000))
    }

    /// What the transform answered to a new rate.
    pub fn bitrate_set(&self, answer: Result<(), String>) -> (r: Result<(), CodecError>)
        ensures
            match answer {
                Ok(()) => r is Ok,
                Err(reason) => r matches Err(e) && is_system(e, "đổi bitrate"@, reason@),
            },
    {
        match answer {
            Ok(()) => Ok(()),
            Err(detail) => Err(CodecError::System { what: "đổi bitrate", detail }),
        }
    }

    /// The next coded frame, after waiting for it.
    pub fn next_frame(&self, waited: Waited) -> (r: Result<EncodedFrame, CodecError>)
        ensures
            r == waited.meaning(),
    {
        waited.told()
    }

    /// A coded frame that is there already. That the encoder is gone looks like no frame.
    pub fn try_next_frame(&self, waited: Waited) -> (r: Option<EncodedFrame>)
        ensures
            r == (match waited {
                Waited::Frame(frame) => Some(frame),
                _ => None,
            }),
    {
        match waited {
            Waited::Frame(frame) => Some(frame),
            _ => None,
        }
    }

    /// What pushing out the frames that are still inside came to.
    pub fn flush(&self, answer: Result<(), String>) -> (r: Result<(), CodecError>)
        ensures
            match answer {
                Ok(()) => r is Ok,
                Err(reason) => r matches Err(e) && is_system(
                    e,
                    "đẩy nốt frame còn lại"@,
                    reason@,
                ),
            },
    {
        match answer {
            Ok(()) => Ok(()),
            Err(detail) => Err(CodecError::System { what: "đẩy nốt frame còn lại", detail }),
        }
    }

    /// The frame for a picture that was converted to NV12, for [`Pipeline::submit`]. A keyframe
    /// that was asked for is asked for once.
    pub fn submit(&mut self, texture: u64, pts_us: u64) -> (r: Job)
        ensures
            r.texture == texture,
            r.pts == (if pts_us * 10 <= i64::MAX {
                pts_us * 10
            } else {
                i64::MAX as int
            }),
            r.force_key == old(self).asked(),
            !final(self).asked(),
            final(self).wanted() == old(self).wanted(),
    {
        let job = Job { texture, pts: hundred_ns(pts_us), force_key: self.force_keyframe };
        self.force_keyframe = false;
        job
    }
}

/// What a conversion from BGRA to NV12 is set up for.
#[derive(Debug, Clone, Copy, PartialEq, Eq, Structural)]
pub struct Conversion {
    /// The same before and after: the hardware would scale as well.
    pub width: u32,
    pub height: u32,
    /// Frames per second, in and out: none is added and none left out.
    pub fps: u32,
    /// The colour space of the picture that goes in, as [`color_space`] packs it.
    pub input_space: u32,
    /// The colour space of the picture that comes out.
    pub output_space: u32,
}

/// A screen has RGB in full range, the encoder takes BT.709 in the range of video. Without being
/// told the driver guesses, and a wrong guess washes the colours out.
pub fn conversion(width: u32, height: u32, fps: u32) -> (r: Conversion)
    ensures
        r.width == width,
        r.height == height,
        r.fps == at_least_one(fps),
        r.input_space == crate::codec::mf_params::color_bits(
            ColorUsage::Processing,
            true,
            true,
            NominalRange::Full,
        ),
        r.output_space == crate::codec::mf_params::color_bits(
            ColorUsage::Processing,
            false,
            true,
            NominalRange::Limited,
        ),
{
    Conversion {
        width,
        height,
        fps: one_at_least(fps),
        input_space: color_space(ColorUsage::Processing, true, true, NominalRange::Full),
        output_space: color_space(ColorUsage::Processing, false, true, NominalRange::Limited),
    }
}

/// How many NV12 textures take turns: the hardware holds on to a frame for a while.
pub const RING: usize = 4;

/// How many views of source textures are kept.
pub const MAX_INPUT_VIEWS: usize = 8;

/// Which texture and which view the conversion from BGRA to NV12 uses. Keys are the caller's names
/// for source textures.
pub struct Nv12Converter {
    views: Vec<u64>,
    index: usize,
    width: u32,
    height: u32,
}

impl Nv12Converter {
    pub closed spec fn keys(&self) -> Seq<u64> {
        self.views@
    }

    pub closed spec fn turn(&self) -> usize {
        self.index
    }

    pub closed spec fn size(&self) -> (u32, u32) {
        (self.width, self.height)
    }

    /// Few views, none of them twice.
    pub open spec fn wf(&self) -> bool {
        self.keys().len() <= MAX_INPUT_VIEWS && self.keys().no_duplicates()
    }

    pub fn new(width: u32, height: u32) -> (r: Self)
        ensures
            r.wf(),
            r.keys() == Seq::<u64>::empty(),
            r.turn() == 0,
            r.size() == (width, height),
    {
        Nv12Converter { views: Vec::new(), index: 0, width, height }
    }

    /// A frame of another size is refused: the hardware would stretch it without a word.
    pub fn check_size(&self, width: u32, height: u32) -> (r: Result<(), CodecError>)
        ensures
            match r {
                Ok(()) => (width, height) == self.size(),
                Err(CodecError::Unsupported(reason)) => (width, height) != self.size() && reason@
                    == "khung hình "@ + crate::text::decimal(width as nat) + "x"@
                    + crate::text::decimal(height as nat) + " không khớp bộ mã hoá "@
                    + crate::text::decimal(self.size().0 as nat) + "x"@ + crate::text::decimal(
                    self.size().1 as nat,
                ),
                Err(_) => false,
            },
    {
        if width == self.width && height == self.height {
            return Ok(());
        }
        let mut s: String = "khung hình ".to_owned();
        push_decimal(&mut s, width as u64);
        s.append("x");
        push_decimal(&mut s, height as u64);
        s.append(" không khớp bộ mã hoá ");
        push_decimal(&mut s, self.width as u64);
        s.append("x");
        push_decimal(&mut s, self.height as u64);
        Err(CodecError::Unsupported(s))
    }

    /// Which kept view belongs to a texture.
    pub fn input_view(&self, key: u64) -> (r: Option<usize>)
        ensures
            match r {
                Some(i) => i < self.keys().len() && self.keys()[i as int] == key,
                None => !self.keys().contains(key),
            },
    {
        let mut i: usize = 0;
        while i < self.views.len()
            invariant
                i <= self.views@.len(),
                forall|j: int| 0 <= j < i ==> self.views@[j] != key,
            decreases self.views@.len() - i,
        {
            if self.views[i] == key {
                return Some(i);
            }
            i += 1;
        }
        None
    }

    /// Keeps the view of a new texture; the oldest makes room.
    pub fn keep_view(&mut self, key: u64)
        requires
            old(self).wf(),
            !old(self).keys().contains(key),
        ensures
            final(self).wf(),
            final(self).keys() == (if old(self).keys().len() >= MAX_INPUT_VIEWS {
                old(self).keys().drop_first()
            } else {
                old(self).keys()
            }).push(key),
            final(self).turn() == old(self).turn(),
            final(self).size() == old(self).size(),
    {
        let ghost before = self.views@;
        if self.views.len() >= MAX_INPUT_VIEWS {
            let _ = self.views.remove(0);
            assert(self.views@ =~= before.drop_first());
            assert forall|j: int| 0 <= j < self.views@.len() implies self.views@[j] != key by {
                assert(before.contains(before[j + 1]));
            }
        } else {
            assert forall|j: int| 0 <= j < self.views@.len() implies self.views@[j] != key by {
                assert(before.contains(before[j]));
            }
        }
        self.views.push(key);
    }

    /// The texture whose turn it is.
    pub fn next_target(&mut self) -> (r: usize)
        ensures
            r == old(self).turn() as int % RING as int,
            r < RING,
            final(self).turn() == (if old(self).turn() == usize::MAX {
                0int
            } else {
                old(self).turn() + 1
            }),
            final(self).keys() == old(self).keys(),
            final(self).size() == old(self).size(),
    {
        let slot: usize = self.index % RING;
        self.index = self.index.wrapping_add(1);
        slot
    }
}

/// The names of the codecs are their four characters; AV1 has none.
pub proof fn codecs_are_named_by_characters(codec: Codec)
    ensures
        subtype_of(codec) == Some(0x3436_3248u32) <==> codec is H264,
        subtype_of(codec) == Some(0x4356_4548u32) <==> codec is Hevc,
        subtype_of(codec) is None <==> codec is Av1,
{
}

/// A machine offers what it has a transform for, each once, HEVC before H.264, and nothing where
/// the system's part is not up.
pub proof fn machines_offer_what_they_have(started: bool, hevc: bool, h264: bool)
    ensures
        ({
            let all = codecs(started, hevc, h264);
            &&& all.contains(Codec::Hevc) <==> started && hevc
            &&& all.contains(Codec::H264) <==> started && h264
            &&& !all.contains(Codec::Av1)
            &&& all.no_duplicates()
            &&& started && hevc ==> all[0] == Codec::Hevc
        }),
{
    let all = codecs(started, hevc, h264);
    if started && hevc {
        assert(all[0] == Codec::Hevc);
        if h264 {
            assert(all[1] == Codec::H264);
        }
    } else if started && h264 {
        assert(all[0] == Codec::H264);
    }
}

/// An access unit without a picture counts as dropped; it counts as an error and as refused data
/// too once pictures have come out, and only then.
pub proof fn silence_is_an_error_once_pictures_came(before: MfDecoder, after: MfDecoder)
    requires
        after.without_output(&before),
        before.can_count(),
    ensures
        after.counts().frames_dropped == before.counts().frames_dropped + 1,
        after.counts().frames_submitted == before.counts().frames_submitted,
        after.counts().frames_emitted == before.counts().frames_emitted,
        before.counts().frames_emitted == 0 ==> after.counts().errors == before.counts().errors
            && after.refused() == before.refused(),
        before.counts().frames_emitted > 0 ==> after.counts().errors == before.counts().errors + 1
            && after.refused(),
{
}

/// Products stop at the largest number, and a rate of nothing counts as one.
pub proof fn products_stop_at_the_largest(n: int, m: u32)
    requires
        n >= 0,
    ensures
        n < 0x1_0000_0000 ==> saturated(n) == n,
        n >= 0x1_0000_0000 ==> saturated(n) == 0xffff_ffff,
        m > 0 ==> at_least_one(m) == m,
        at_least_one(0) == 1,
{
}

/// A size has the width above the height, and a rate has the frames above the one second that they
/// take.
pub proof fn pairs_have_the_first_above(config: EncoderConfig)
    ensures
        size_value(config) matches TypeValue::FrameSize(n) && n / 0x1_0000_0000 == config.width
            && n % 0x1_0000_0000 == config.height,
        rate_value(config) matches TypeValue::FrameRate(n) && n % 0x1_0000_0000 == 1 && (
        config.target_fps > 0 ==> n / 0x1_0000_0000 == config.target_fps) && (config.target_fps == 0
            ==> n / 0x1_0000_0000 == 1),
{
}

/// What begins with 0, 0, 1 or 0, 0, 0, 1 begins with a start code, and nothing else does.
pub proof fn start_codes_are_short_or_long(blob: Seq<u8>)
    ensures
        opens_with_code(blob) <==> (blob.len() >= 3 && blob.take(3) == seq![0u8, 0, 1]) || (
        blob.len() >= 4 && blob.take(4) == seq![0u8, 0, 0, 1]),
{
    if blob.len() >= 3 {
        let three = blob.take(3);
        if blob[0] == 0 && blob[1] == 0 && blob[2] == 1 {
            assert(three =~= seq![0u8, 0, 1]);
        }
        if three == seq![0u8, 0, 1] {
            assert(three[0] == 0 && three[1] == 0 && three[2] == 1);
        }
    }
    if blob.len() >= 4 {
        let four = blob.take(4);
        if blob[0] == 0 && blob[1] == 0 && blob[2] == 0 && blob[3] == 1 {
            assert(four =~= seq![0u8, 0, 0, 1]);
        }
        if four == seq![0u8, 0, 0, 1] {
            assert(four[0] == 0 && four[1] == 0 && four[2] == 0 && four[3] == 1);
        }
    }
}

/// A keyframe goes out with parameter sets: its own where it has any, else those that the encoder
/// keeps, before it. Every other frame goes out as it is.
pub proof fn keyframes_go_out_with_sets(sets: Seq<u8>, codec: Codec, data: Seq<u8>)
    ensures
        completed(sets, codec, data, false) == data,
        codec is Av1 ==> completed(sets, codec, data, true) == data,
        !(codec is Av1) ==> ({
            let own = exists|i: int|
                0 <= i < crate::codec::annexb::units(data, 0).len()
                    && #[trigger] crate::codec::nalu::class_of(
                    codec,
                    crate::codec::annexb::units(data, 0)[i],
                ) is ParameterSet;
            &&& own ==> completed(sets, codec, data, true) == data
            &&& !own ==> completed(sets, codec, data, true) == sets + data
        }),
{
}

/// A viewer that joins at a keyframe can decode it: where the encoder's data had no parameter sets,
/// what goes out is those that it keeps and then the data, unit by unit.
pub proof fn kept_sets_come_apart_again(sets: Seq<Seq<u8>>, list: Seq<Seq<u8>>, codec: Codec)
    requires
        forall|k: int|
            0 <= k < sets.len() ==> 0 < (#[trigger] sets[k]).len()
                && crate::codec::annexb::clean(sets[k]),
        forall|k: int|
            0 <= k < list.len() ==> 0 < (#[trigger] list[k]).len()
                && crate::codec::annexb::clean(list[k]),
        !(codec is Av1),
        forall|k: int|
            0 <= k < list.len() ==> !(#[trigger] crate::codec::nalu::class_of(codec, list[k])
                is ParameterSet),
    ensures
        crate::codec::annexb::units(
            completed(
                crate::codec::annexb::annexb(sets),
                codec,
                crate::codec::annexb::annexb(list),
                true,
            ),
            0,
        ) == sets + list,
{
    crate::codec::annexb::annexb_roundtrip(list);
    let both = sets + list;
    assert forall|k: int| 0 <= k < both.len() implies (#[trigger] both[k]).len() > 0
        && crate::codec::annexb::clean(both[k]) by {
        if k < sets.len() {
            assert(both[k] == sets[k]);
        } else {
            assert(both[k] == list[k - sets.len()]);
        }
    }
    crate::codec::annexb::annexb_roundtrip(both);
    crate::codec::videotoolbox::annexb_joins(sets, list);
}

/// A frame that joins comes last in the queue and is waited for under its time stamp. Up to four
/// wait; beyond that the oldest leaves, is counted as dropped, and is waited for no more. Every
/// frame that joins is counted, and the invitations stay as they are.
pub proof fn frames_wait_in_order(books: Books, job: Job, now_us: u64)
    requires
        books.queue.len() <= 4,
        books.counts.frames_submitted < 0xffff_ffff_ffff_ffff,
        books.counts.frames_dropped < 0xffff_ffff_ffff_ffff,
    ensures
        ({
            let after = books.joined(job, now_us);
            let full = books.queue.len() == 4;
            &&& after.queue.last() == job
            &&& !full ==> after.queue.drop_last() == books.queue
            &&& full ==> after.queue.drop_last() == books.queue.skip(1)
            &&& after.credits == books.credits
            &&& after.counts.frames_submitted == books.counts.frames_submitted + 1
            &&& after.counts.frames_dropped == books.counts.frames_dropped + if full {
                1int
            } else {
                0
            }
            &&& after.counts.frames_emitted == books.counts.frames_emitted
            &&& after.counts.bytes_emitted == books.counts.bytes_emitted
            &&& after.counts.errors == books.counts.errors
            &&& !full ==> after.times == books.times.insert(job.pts, now_us)
            &&& full && books.queue[0].pts != job.pts ==> after.times == books.times.insert(
                job.pts,
                now_us,
            ).remove(books.queue[0].pts)
            &&& full && books.queue[0].pts == job.pts ==> after.times == books.times.remove(job.pts)
        }),
{
    let after = books.joined(job, now_us);
    let queue = books.queue.push(job);
    assert(queue.drop_last() =~= books.queue);
    if books.queue.len() == 4 {
        assert(after.queue.drop_last() =~= books.queue.skip(1));
        assert(queue[0] == books.queue[0]);
        if books.queue[0].pts == job.pts {
            assert(books.times.insert(job.pts, now_us).remove(job.pts) =~= books.times.remove(
                job.pts,
            ));
        }
    }
}

/// The books after frames joined one by one, each at its moment.
pub open spec fn after_joining(books: Books, jobs: Seq<(Job, u64)>) -> Books
    decreases jobs.len(),
{
    if jobs.len() == 0 {
        books
    } else {
        after_joining(books, jobs.drop_last()).joined(jobs.last().0, jobs.last().1)
    }
}

/// However many frames join an empty queue, the last four wait, in the order in which they came.
pub proof fn the_last_four_wait(books: Books, jobs: Seq<(Job, u64)>)
    requires
        books.queue.len() == 0,
    ensures
        ({
            let queue = after_joining(books, jobs).queue;
            let kept = if jobs.len() < 4 {
                jobs.len() as int
            } else {
                4
            };
            &&& queue.len() == kept
            &&& forall|i: int|
                0 <= i < kept ==> #[trigger] queue[i] == jobs[jobs.len() - kept + i].0
        }),
    decreases jobs.len(),
{
    if jobs.len() > 0 {
        the_last_four_wait(books, jobs.drop_last());
    }
}

/// A frame that came out is waited for no more. All others still are, unless over 256 are left:
/// then all are given up.
pub proof fn what_came_out_is_not_waited_for(books: Books, pts: i64)
    ensures
        !books.answered(pts).dom().contains(pts),
        books.times.remove(pts).dom().len() <= 256 ==> books.answered(pts) == books.times.remove(
            pts,
        ),
        books.times.remove(pts).dom().len() > 256 ==> books.answered(pts) == Map::<
            i64,
            u64,
        >::empty(),
{
}

/// An access unit that went in is asked for twice at most, for a picture or first for its type;
/// every one counts as submitted, and only one that the decoder refused counts as an error.
pub proof fn units_go_in_for_two_rounds(
    decoder: &mut MfDecoder,
    fed: Fed,
    r: Result<Next, CodecError>,
)
    requires
        old(decoder).can_count(),
        call_ensures(MfDecoder::decode, (decoder, fed), r),
    ensures
        final(decoder).counts().frames_submitted == old(decoder).counts().frames_submitted + 1,
        final(decoder).counts().frames_emitted == old(decoder).counts().frames_emitted,
        final(decoder).counts().frames_dropped == old(decoder).counts().frames_dropped,
        fed is Refused ==> final(decoder).counts().errors == old(decoder).counts().errors + 1,
        !(fed is Refused) ==> final(decoder).counts().errors == old(decoder).counts().errors,
        r is Ok <==> fed is Taken,
        fed is Taken ==> final(decoder).left() == 2,
        fed is Taken && old(decoder).settled() ==> r == Ok::<Next, CodecError>(Next::Pull),
        fed is Taken && !old(decoder).settled() ==> r == Ok::<Next, CodecError>(Next::Negotiate),
        fed matches Fed::Refused(why) ==> (r matches Err(CodecError::System { detail, .. })
            && detail@ == why@),
        fed matches Fed::Unmade(_, why) ==> (r matches Err(CodecError::System { detail, .. })
            && detail@ == why@),
{
}

/// A picture comes out with the stream's size and the time stamp that went in, and is counted. None
/// is the end of this unit; another type has to be settled first; and a decoder that failed is an
/// error.
pub proof fn pictures_come_out_as_they_are(
    decoder: &mut MfDecoder,
    pulled: Pulled,
    pts_us: u64,
    decode_us: u32,
    r: Result<Next, CodecError>,
)
    requires
        old(decoder).can_count(),
        call_ensures(MfDecoder::pull, (decoder, pulled, pts_us, decode_us), r),
    ensures
        ({
            let before = old(decoder).counts();
            let after = final(decoder).counts();
            &&& pulled is Frame ==> {
                &&& r matches Ok(Next::Done(Some(frame)))
                &&& frame.width == old(decoder).size().0
                &&& frame.height == old(decoder).size().1
                &&& frame.pts_us == pts_us
                &&& frame.decode_us == decode_us
                &&& after.frames_emitted == before.frames_emitted + 1
                &&& after.errors == before.errors
                &&& after.frames_dropped == before.frames_dropped
                &&& !final(decoder).refused()
            }
            &&& pulled is NeedInput ==> r == Ok::<Next, CodecError>(Next::Done(None))
                && after.frames_dropped == before.frames_dropped + 1 && after.frames_emitted
                == before.frames_emitted
            &&& pulled is StreamChange ==> r == Ok::<Next, CodecError>(Next::Negotiate) && !final(decoder).settled() && after == before
            &&& pulled is Failed ==> r is Err && after.errors == before.errors + 1
                && after.frames_dropped == before.frames_dropped
            &&& pulled is Unusable ==> r is Err && after == before
            &&& !(pulled is StreamChange) ==> final(decoder).settled() == old(decoder).settled()
        }),
{
}

/// The output is settled where NV12 is offered and was set; the picture then has the size that the
/// type says, the width above the height. Each time takes one of the rounds.
pub proof fn outputs_are_settled_on_nv12(
    decoder: &mut MfDecoder,
    subtypes: &[Option<u32>],
    size: Option<u64>,
    set: Result<(), String>,
    r: Result<Next, CodecError>,
)
    requires
        old(decoder).can_count(),
        old(decoder).left() > 0,
        call_ensures(MfDecoder::negotiate_output, (decoder, subtypes, size, set), r),
    ensures
        ({
            let offered = exists|i: int|
                0 <= i < subtypes@.len() && #[trigger] subtypes@[i] == Some(0x3231_564eu32);
            &&& !offered ==> r is Err && *final(decoder) == *old(decoder)
            &&& offered && set is Err ==> r is Err && final(decoder).settled() == old(decoder).settled()
            &&& offered && set is Ok ==> r is Ok && final(decoder).settled() && final(decoder).left() == old(decoder).left() - 1
            &&& offered && set is Ok && old(decoder).left() > 1 ==> r == Ok::<Next, CodecError>(
                Next::Pull,
            )
            &&& offered ==> (size matches Some(n) ==> final(decoder).size().0 * 0x1_0000_0000
                + final(decoder).size().1 == n)
            &&& offered && size is None ==> final(decoder).size() == old(decoder).size()
        }),
{
    if exists|i: int| 0 <= i < subtypes@.len() && #[trigger] subtypes@[i] == Some(0x3231_564eu32) {
        assert(subtypes@.contains(Some(NV12_SUBTYPE)));
    }
}

/// What the decoder's two own numbers mean; any other is a failure.
pub proof fn two_numbers_are_no_failure(answer: Result<bool, (u32, String)>, r: Pulled)
    requires
        call_ensures(answered, (answer,), r),
    ensures
        answer == Ok::<bool, (u32, String)>(true) ==> r is Frame,
        answer == Ok::<bool, (u32, String)>(false) ==> r is NeedInput,
        answer matches Err(e) ==> (r is NeedInput <==> e.0 == 0xc00d_6d72) && (r is StreamChange
            <==> e.0 == 0xc00d_6d61) && (r is Failed <==> e.0 != 0xc00d_6d72 && e.0
            != 0xc00d_6d61),
{
}

/// Frames leave the queue in the order in which they came, one for each invitation, and none
/// without.
pub proof fn frames_leave_by_invitation(pipeline: &mut Pipeline, r: Option<Job>)
    requires
        old(pipeline).wf(),
        call_ensures(Pipeline::feed, (pipeline,), r),
    ensures
        ({
            let before = old(pipeline).books();
            let after = final(pipeline).books();
            &&& r is None <==> before.credits <= 0 || before.queue.len() == 0
            &&& r matches Some(job) ==> job == before.queue[0] && after.queue
                == before.queue.skip(1) && after.credits == before.credits - 1
            &&& r is None ==> after == before
            &&& after.times == before.times
            &&& after.counts == before.counts
        }),
{
    if old(pipeline).books().queue.len() > 0 {
        assert(old(pipeline).books().queue.skip(1) =~= old(pipeline).books().queue.drop_first());
    }
}

/// A frame that joins is the last in the queue and counted; at most four wait. An invitation is one
/// more, and changes nothing else.
pub proof fn frames_join_the_queue(
    joining: &mut Pipeline,
    inviting: &mut Pipeline,
    job: Job,
    now_us: u64,
)
    requires
        old(joining).wf(),
        call_ensures(Pipeline::submit, (joining, job, now_us), ()),
        old(inviting).wf(),
        old(inviting).books().credits < u32::MAX,
        call_ensures(Pipeline::invited, (inviting,), ()),
        old(joining).books().counts.frames_submitted < 0xffff_ffff,
        old(joining).books().counts.frames_dropped < 0xffff_ffff,
    ensures
        ({
            let before = old(joining).books();
            let after = final(joining).books();
            &&& after.queue.len() <= 4
            &&& after.queue.last() == job
            &&& before.queue.len() < 4 ==> after.queue.drop_last() == before.queue
            &&& before.queue.len() == 4 ==> after.queue.drop_last() == before.queue.skip(1)
            &&& after.counts.frames_submitted == before.counts.frames_submitted + 1
            &&& after.counts.frames_dropped == before.counts.frames_dropped + if before.queue.len()
                == 4 {
                1int
            } else {
                0
            }
            &&& after.credits == before.credits
            &&& final(inviting).books().credits == old(inviting).books().credits + 1
            &&& final(inviting).books().queue == old(inviting).books().queue
            &&& final(inviting).books().times == old(inviting).books().times
            &&& final(inviting).books().counts == old(inviting).books().counts
        }),
{
    frames_wait_in_order(old(joining).books(), job, now_us);
}

/// A coded frame goes out with the time stamp in microseconds, as a keyframe where the transform
/// marked it as one, with parameter sets before it then; how long it took is known where it was
/// waited for, and it is waited for no more. It and its bytes are counted.
pub proof fn coded_frames_go_out(
    pipeline: &mut Pipeline,
    output: Output,
    now_us: u64,
    r: EncodedFrame,
)
    requires
        old(pipeline).wf(),
        call_ensures(Pipeline::drain_one, (pipeline, output, now_us), r),
        old(pipeline).books().counts.frames_emitted < 0xffff_ffff,
    ensures
        ({
            let before = old(pipeline).books();
            let after = final(pipeline).books();
            let key = output.clean_point == Some(1u32);
            let pts = match output.pts {
                Some(n) => n,
                None => 0,
            };
            &&& r.keyframe == key
            &&& !key ==> r.data@ == output.data@
            &&& r.data@ == output.data@ || r.data@ == old(pipeline).sets() + output.data@
            &&& pts >= 0 ==> 10 * r.pts_us <= pts < 10 * r.pts_us + 10
            &&& pts < 0 ==> r.pts_us == 0
            &&& before.times.dom().contains(pts) && before.times[pts] <= now_us
                < before.times[pts] + 0x1_0000_0000 ==> before.times[pts] + r.encode_us == now_us
            &&& !before.times.dom().contains(pts) ==> r.encode_us == 0
            &&& !after.times.dom().contains(pts)
            &&& after.counts.frames_emitted == before.counts.frames_emitted + 1
            &&& after.counts.errors == before.counts.errors
            &&& after.counts.frames_dropped == before.counts.frames_dropped
            &&& after.queue == before.queue
            &&& after.credits == before.credits
        }),
{
    let pts: i64 = match output.pts {
        Some(n) => n,
        None => 0,
    };
    let before = old(pipeline).books();
    what_came_out_is_not_waited_for(before, pts);
    crate::number::short_times_are_exact(before.times[pts], now_us);
    crate::number::counters_grow(before.counts.frames_emitted, 1);
}

/// What a transform refused is counted as dropped and as an error, what could not be read only as
/// an error, and what nobody took only as dropped.
pub proof fn failures_are_counted_apart(
    refusing: &mut Pipeline,
    failing: &mut Pipeline,
    dropping: &mut Pipeline,
    job: Job,
)
    requires
        old(refusing).wf() && old(failing).wf() && old(dropping).wf(),
        call_ensures(Pipeline::refused, (refusing, job), ()),
        call_ensures(Pipeline::failed, (failing,), ()),
        call_ensures(Pipeline::undelivered, (dropping,), ()),
        old(refusing).books().counts.frames_dropped < 0xffff_ffff,
        old(refusing).books().counts.errors < 0xffff_ffff,
        old(failing).books().counts.errors < 0xffff_ffff,
        old(dropping).books().counts.frames_dropped < 0xffff_ffff,
    ensures
        final(refusing).books().counts.frames_dropped == old(refusing).books().counts.frames_dropped + 1,
        final(refusing).books().counts.errors == old(refusing).books().counts.errors + 1,
        final(refusing).books().times == old(refusing).books().times.remove(job.pts),
        final(refusing).books().queue == old(refusing).books().queue,
        final(failing).books().counts.errors == old(failing).books().counts.errors + 1,
        final(failing).books().counts.frames_dropped == old(failing).books().counts.frames_dropped,
        final(dropping).books().counts.frames_dropped == old(dropping).books().counts.frames_dropped + 1,
        final(dropping).books().counts.errors == old(dropping).books().counts.errors,
{
    crate::number::counters_grow(old(refusing).books().counts.frames_dropped, 1);
    crate::number::counters_grow(old(refusing).books().counts.errors, 1);
    crate::number::counters_grow(old(failing).books().counts.errors, 1);
    crate::number::counters_grow(old(dropping).books().counts.frames_dropped, 1);
}

/// A keyframe that was asked for goes with the next picture and with no other after it. The time is
/// counted in tenths of a microsecond.
pub proof fn keyframe_wishes_go_once(
    asking: &mut MfEncoder,
    first: &mut MfEncoder,
    second: &mut MfEncoder,
    texture: u64,
    pts_us: u64,
    one: Job,
    two: Job,
)
    requires
        call_ensures(MfEncoder::request_keyframe, (asking,), ()),
        *old(first) == *final(asking),
        call_ensures(MfEncoder::submit, (first, texture, pts_us), one),
        *old(second) == *final(first),
        call_ensures(MfEncoder::submit, (second, texture, pts_us), two),
        pts_us <= 0x0ccc_cccc_cccc_cccc,
    ensures
        one.force_key,
        !two.force_key,
        one.texture == texture,
        one.pts == 10 * pts_us,
{
}

/// Textures take turns, four of them.
pub proof fn textures_take_turns(converter: &mut Nv12Converter, r: usize)
    requires
        call_ensures(Nv12Converter::next_target, (converter,), r),
    ensures
        r < 4,
        r == old(converter).turn() % 4,
        old(converter).turn() < usize::MAX ==> final(converter).turn() == old(converter).turn() + 1,
{
}

/// Up to eight views are kept, the newest last; a ninth drives out the oldest.
pub proof fn eight_views_are_kept(converter: &mut Nv12Converter, key: u64)
    requires
        old(converter).wf(),
        !old(converter).keys().contains(key),
        call_ensures(Nv12Converter::keep_view, (converter, key), ()),
    ensures
        final(converter).keys().last() == key,
        final(converter).keys().len() <= 8,
        old(converter).keys().len() < 8 ==> final(converter).keys() == old(converter).keys().push(
            key,
        ),
        old(converter).keys().len() == 8 ==> final(converter).keys() == old(converter).keys().skip(1).push(key),
{
    if old(converter).keys().len() == 8 {
        assert(old(converter).keys().skip(1) =~= old(converter).keys().drop_first());
    }
}

/// A screen goes in as RGB of full range, and comes out as BT.709 of video range, as large and as
/// often as before.
pub proof fn conversions_name_their_colours(width: u32, height: u32, fps: u32, r: Conversion)
    requires
        call_ensures(conversion, (width, height, fps), r),
    ensures
        r.width == width,
        r.height == height,
        fps > 0 ==> r.fps == fps,
        fps == 0 ==> r.fps == 1,
        r.input_space == 1 + 4 + 32,
        r.output_space == 1 + 2 + 4 + 16,
{
}

/// What an encoder is asked for: no gathering of frames, a rate that is kept, a thousand bits for a
/// kilobit, and keyframes as far apart as configured.
pub proof fn encoders_are_asked_for_a_steady_rate(config: &EncoderConfig, r: Vec<CodecValue>)
    requires
        call_ensures(configure_codec_api, (config,), r),
        config.target_bitrate_kbps <= 4_000_000,
        0 < config.target_fps,
        config.keyframe_interval_secs * config.target_fps <= 0xffff_ffff,
    ensures
        r@.len() == 4,
        r@[0] == CodecValue::LowLatency(true),
        r@[1] == CodecValue::ConstantBitRate,
        r@[2] matches CodecValue::MeanBitRate(bits) && bits == 1000 * config.target_bitrate_kbps,
        r@[3] matches CodecValue::GopSize(frames) && frames == config.keyframe_interval_secs
            * config.target_fps,
{
    assert(0 <= config.keyframe_interval_secs * config.target_fps) by (nonlinear_arith);
}

/// What comes out of an encoder is the codec that was configured, and what goes in is NV12, of the
/// same size and rate; only H.264 has a profile to ask for, and AV1 there is none for.
pub proof fn types_are_those_configured(
    config: &EncoderConfig,
    out: Result<Vec<TypeValue>, CodecError>,
    come: Vec<TypeValue>,
)
    requires
        call_ensures(set_output_type, (config,), out),
        call_ensures(set_input_type, (config,), come),
    ensures
        out is Err <==> config.codec is Av1,
        out matches Ok(list) ==> list@.len() == (if config.codec is H264 {
            8int
        } else {
            7
        }) && (list@[1] == TypeValue::Subtype(0x3436_3248) <==> config.codec is H264) && (list@[1]
            == TypeValue::Subtype(0x4356_4548) <==> config.codec is Hevc) && list@[3] == come@[2]
            && list@[4] == come@[3] && (config.codec is H264 ==> list@[7]
            == TypeValue::HighProfile),
        come@.len() == 7,
        come@[1] == TypeValue::Subtype(0x3231_564e),
        come@[2] matches TypeValue::FrameSize(n) && n == config.width * 0x1_0000_0000
            + config.height,
        come@[3] matches TypeValue::FrameRate(n) && (config.target_fps > 0 ==> n
            == config.target_fps * 0x1_0000_0000 + 1),
        come@[4] matches TypeValue::PixelAspect(n) && n == 0x1_0000_0001,
        come@[6] == TypeValue::SamplesIndependent,
{
}

/// The first transform that can be made is taken, and the last failure is told where none can.
pub proof fn the_first_that_works_is_taken(
    count: u32,
    outcomes: &[Result<(), String>],
    what: &str,
    r: Result<usize, CodecError>,
    j: int,
)
    requires
        call_ensures(activate_first, (count, outcomes, what), r),
        0 <= j < outcomes@.len(),
    ensures
        count == 0 ==> (r matches Err(CodecError::Unsupported(_))),
        r matches Ok(i) ==> count > 0 && i < outcomes@.len() && outcomes@[i as int] is Ok && (j < i
            ==> outcomes@[j] is Err),
        count > 0 && outcomes@[j] is Ok ==> r is Ok,
        count > 0 && r is Err ==> (r matches Err(CodecError::System { detail, .. })
            && outcomes@.last() is Err && detail@ == outcomes@.last()->Err_0@),
{
    if r matches Ok(i) && j < i {
        assert(outcomes@[j] is Err);
    }
    if r is Err && count > 0 {
        assert(outcomes@[j] is Err);
        assert(outcomes@[outcomes@.len() - 1] is Err);
    }
}

/// The graphics hardware is tried before the software.
pub proof fn hardware_comes_first(
    order: Vec<Driver>,
    outcomes: &[Result<(), String>],
    r: Result<Driver, CodecError>,
)
    requires
        outcomes@.len() == 2,
        call_ensures(drivers, (), order),
        call_ensures(create_device, (outcomes,), r),
    ensures
        order@.len() == 2 && order@[0] is Hardware && order@[1] is Warp,
        outcomes@[0] is Ok <==> (r matches Ok(Driver::Hardware)),
        outcomes@[0] is Err && outcomes@[1] is Ok <==> (r matches Ok(Driver::Warp)),
        r is Err ==> outcomes@[0] is Err && outcomes@[1] is Err,
{
    if r is Err {
        assert(outcomes@[0] is Err && outcomes@[1] is Err);
    }
}

/// A decoder needs the system, a codec that is known, a transform that takes textures, and its
/// types, in this order; the first that is missing is told.
pub proof fn decoders_need_four_things(
    codec: Codec,
    width: u32,
    height: u32,
    started: Result<(), CodecError>,
    found: Result<u32, CodecError>,
    prepared: Result<(), CodecError>,
    r: Result<MfDecoder, CodecError>,
)
    requires
        call_ensures(MfDecoder::new, (codec, width, height, started, found, prepared), r),
    ensures
        r is Ok <==> started is Ok && !(codec is Av1) && found is Ok && found->Ok_0 != 0
            && prepared is Ok,
        started matches Err(e) ==> r == Err::<MfDecoder, CodecError>(e),
        started is Ok && !(codec is Av1) ==> (found matches Err(e) ==> r == Err::<
            MfDecoder,
            CodecError,
        >(e)),
        r matches Ok(d) ==> d.kind() == codec && d.size() == (width, height) && !d.settled()
            && !d.refused(),
{
}

/// Bad data is told of once, and nothing else changes by it.
pub proof fn bad_data_is_told_once(
    first: &mut MfDecoder,
    second: &mut MfDecoder,
    one: bool,
    two: bool,
)
    requires
        call_ensures(MfDecoder::take_bad_data, (first,), one),
        *old(second) == *final(first),
        call_ensures(MfDecoder::take_bad_data, (second,), two),
    ensures
        one == old(first).refused(),
        !two,
        final(first).counts() == old(first).counts(),
        final(first).settled() == old(first).settled(),
        final(first).size() == old(first).size(),
{
}

/// A frame lasts its share of a second, in tenths of a microsecond; no rate counts as one a second.
pub proof fn frames_last_their_share(config: &EncoderConfig, r: i64)
    requires
        call_ensures(frame_duration, (config,), r),
    ensures
        config.target_fps == 0 ==> r == 10_000_000,
        config.target_fps > 0 ==> r == (1_000_000int / config.target_fps as int) * 10,
{
}

/// Parameter sets that do not open with a start code get one; others, and none at all, stay as they
/// are.
pub proof fn sets_open_with_a_code(blob: Vec<u8>, r: Vec<u8>)
    requires
        call_ensures(sequence_header, (blob,), r),
    ensures
        blob@.len() == 0 || opens_with_code(blob@) ==> r@ == blob@,
        blob@.len() > 0 && !opens_with_code(blob@) ==> r@ == seq![0u8, 0, 0, 1] + blob@,
{
    assert(crate::codec::annexb::start_code() =~= seq![0u8, 0, 0, 1]);
}

/// An encoder needs the system, a codec that is known and a transform, in this order, and begins
/// with what was wished and no keyframe asked for. It works in hardware, with coarse colours.
pub proof fn encoders_need_three_things(
    config: EncoderConfig,
    prepared: Result<(), CodecError>,
    found: Result<(), CodecError>,
    r: Result<MfEncoder, CodecError>,
    encoder: &MfEncoder,
    chroma: ChromaSubsampling,
    hardware: bool,
)
    requires
        call_ensures(MfEncoder::new, (config, prepared, found), r),
        call_ensures(MfEncoder::actual_chroma, (encoder,), chroma),
        call_ensures(MfEncoder::is_hardware, (encoder,), hardware),
    ensures
        r is Ok <==> prepared is Ok && !(config.codec is Av1) && found is Ok,
        prepared matches Err(e) ==> r == Err::<MfEncoder, CodecError>(e),
        r matches Ok(e) ==> e.wanted() == config && !e.asked(),
        chroma is Yuv420 && hardware,
{
}

/// A rate is set in bits a second where it can be, and never above the largest number.
pub proof fn rates_are_set_in_bits(
    encoder: &MfEncoder,
    kbps: u32,
    adjustable: bool,
    r: Result<u32, CodecError>,
)
    requires
        call_ensures(MfEncoder::set_bitrate, (encoder, kbps, adjustable), r),
    ensures
        r is Ok <==> adjustable,
        r matches Ok(n) ==> (kbps <= 4_294_967 ==> n == 1000 * kbps) && (kbps > 4_294_967 ==> n
            == 4_294_967_295),
{
}

/// A converter takes pictures of its own size only.
pub proof fn converters_take_their_size(
    width: u32,
    height: u32,
    fresh: Nv12Converter,
    other: (u32, u32),
    r: Result<(), CodecError>,
)
    requires
        call_ensures(Nv12Converter::new, (width, height), fresh),
        call_ensures(Nv12Converter::check_size, (&fresh, other.0, other.1), r),
    ensures
        r is Ok <==> other.0 == width && other.1 == height,
        fresh.keys().len() == 0 && fresh.turn() == 0,
{
}

/// The first output that is NV12 is chosen.
pub proof fn the_first_nv12_is_chosen(
    subtypes: &[Option<u32>],
    r: Result<usize, CodecError>,
    j: int,
)
    requires
        call_ensures(choose_output, (subtypes,), r),
        0 <= j < subtypes@.len(),
        subtypes@[j] == Some(NV12_SUBTYPE),
    ensures
        r matches Ok(i) && i <= j && subtypes@[i as int] == Some(NV12_SUBTYPE),
{
}

} // verus!
