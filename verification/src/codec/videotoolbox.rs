//! Coding and decoding with VideoToolbox.
//!
//! The sessions belong to the caller. What is set on them, what goes into them, and what is made
//! of what comes out, is decided here.

use vstd::prelude::*;

use crate::codec::annexb::{
    annexb_to_length_prefixed, iter_nalus, length_prefixed_to_annexb, push_nalu, BitstreamError,
    NaluClass,
};
use crate::codec::nalu::{classify, holds_class};
use crate::codec::{
    CodecError, DecodedFrame, DecoderStats, EncodedFrame, EncoderConfig, EncoderStats, FrameFormat,
    Waited,
};
use crate::number::{count, elapsed_us, signed_of};
use crate::protocol::control::{ChromaSubsampling, Codec};

verus! {

/// `kCMVideoCodecType_HEVC`, the characters `hvc1`.
pub const HEVC_TYPE: u32 = 0x6876_6331;

/// `kCMVideoCodecType_H264`, the characters `avc1`.
pub const H264_TYPE: u32 = 0x6176_6331;

/// The number that VideoToolbox has for a codec.
pub fn codec_type(codec: Codec) -> (r: Result<u32, CodecError>)
    ensures
        match r {
            Ok(n) => (codec is Hevc && n == HEVC_TYPE) || (codec is H264 && n == H264_TYPE),
            Err(CodecError::Unsupported(reason)) => codec is Av1 && reason@
                == "VideoToolbox không mã hoá được AV1"@,
            Err(_) => false,
        },
{
    match codec {
        Codec::Hevc => Ok(HEVC_TYPE),
        Codec::H264 => Ok(H264_TYPE),
        Codec::Av1 => Err(
            CodecError::Unsupported("VideoToolbox không mã hoá được AV1".to_owned()),
        ),
    }
}

/// Those of the units that are parameter sets, or those that are not.
pub open spec fn picked(units: Seq<Seq<u8>>, codec: Codec, sets: bool) -> Seq<Seq<u8>>
    decreases units.len(),
{
    if units.len() == 0 {
        seq![]
    } else if (crate::codec::nalu::class_of(codec, units.last()) is ParameterSet) == sets {
        picked(units.drop_last(), codec, sets).push(units.last())
    } else {
        picked(units.drop_last(), codec, sets)
    }
}

/// The bytes of each.
pub open spec fn bytes(sets: Seq<Vec<u8>>) -> Seq<Seq<u8>> {
    Seq::new(sets.len(), |i: int| sets[i]@)
}

fn same_sets(a: &Vec<Vec<u8>>, b: &Vec<Vec<u8>>) -> (r: bool)
    ensures
        r == (bytes(a@) == bytes(b@)),
{
    if a.len() != b.len() {
        assert(bytes(a@).len() != bytes(b@).len());
        return false;
    }
    let mut i: usize = 0;
    while i < a.len()
        invariant
            i <= a@.len(),
            a@.len() == b@.len(),
            forall|j: int| 0 <= j < i ==> bytes(a@)[j] == bytes(b@)[j],
        decreases a@.len() - i,
    {
        let x: &Vec<u8> = &a[i];
        let y: &Vec<u8> = &b[i];
        assert(bytes(a@)[i as int] == x@);
        assert(bytes(b@)[i as int] == y@);
        if x.len() != y.len() {
            return false;
        }
        let mut k: usize = 0;
        while k < x.len()
            invariant
                k <= x@.len(),
                x@.len() == y@.len(),
                bytes(a@)[i as int] == x@,
                bytes(b@)[i as int] == y@,
                forall|j: int| 0 <= j < k ==> x@[j] == y@[j],
            decreases x@.len() - k,
        {
            if x[k] != y[k] {
                return false;
            }
            k += 1;
        }
        assert(x@ =~= y@);
        i += 1;
    }
    assert(bytes(a@) =~= bytes(b@));
    true
}

fn copy_of(data: &[u8]) -> (v: Vec<u8>)
    ensures
        v@ == data@,
{
    let mut v: Vec<u8> = Vec::new();
    v.extend_from_slice(data);
    assert(v@ =~= data@);
    v
}

/// What an access unit asks for.
#[derive(Debug)]
pub struct AccessUnit {
    /// The parameter sets in it.
    pub sets: Vec<Vec<u8>>,
    /// Whether a session for these sets must be made first.
    pub rebuild: bool,
    /// Everything else, length-prefixed.
    pub payload: Vec<u8>,
}

/// What the session made of a payload.
#[derive(Debug, Clone, Copy, PartialEq, Eq, Structural)]
pub enum DecodeOutcome {
    /// The payload could not be handed over. This is not the stream's fault and not counted.
    Unmade(i32),
    /// The call itself failed.
    Failed(i32),
    Picture { width: usize, height: usize },
    /// No picture came; 0, or what the callback reported.
    Nothing(i32),
}

/// What making an object came to: a status, and whether one came.
#[derive(Debug, Clone, Copy, PartialEq, Eq, Structural)]
pub struct Answer {
    pub status: i32,
    pub present: bool,
}

impl Answer {
    pub open spec fn good(self) -> bool {
        self.status == 0 && self.present
    }
}

/// `kCVPixelFormatType_420YpCbCr8BiPlanarVideoRange`, the characters `420v`.
pub const PIXELS_420: u32 = 0x3432_3076;

/// `kCVPixelFormatType_422YpCbCr10BiPlanarVideoRange`, the characters `x422`.
pub const PIXELS_422: u32 = 0x7834_3232;

pub struct VtDecoder {
    codec: Codec,
    format_out: FrameFormat,
    has_session: bool,
    /// The sets that the session was made for. They change with the host's resolution.
    parameter_sets: Vec<Vec<u8>>,
    stats: DecoderStats,
    bad_data: bool,
}

impl VtDecoder {
    pub closed spec fn kind(&self) -> Codec {
        self.codec
    }

    pub closed spec fn format(&self) -> FrameFormat {
        self.format_out
    }

    pub closed spec fn running(&self) -> bool {
        self.has_session
    }

    pub closed spec fn sets(&self) -> Seq<Seq<u8>> {
        bytes(self.parameter_sets@)
    }

    pub closed spec fn counts(&self) -> DecoderStats {
        self.stats
    }

    pub closed spec fn refused(&self) -> bool {
        self.bad_data
    }

    /// The counters can grow once more.
    pub open spec fn can_count(&self) -> bool {
        self.counts().frames_submitted < u64::MAX && self.counts().frames_emitted < u64::MAX
            && self.counts().frames_dropped < u64::MAX && self.counts().errors < u64::MAX
    }

    /// `chroma` should be what the encoder really uses: anything else costs a conversion on each
    /// frame.
    pub fn new(codec: Codec, chroma: ChromaSubsampling) -> (r: Result<Self, CodecError>)
        ensures
            match r {
                Ok(d) => codec !is Av1 && d.kind() == codec && d.format() == (if chroma is Yuv420 {
                    FrameFormat::Nv12VideoRange
                } else {
                    FrameFormat::P210VideoRange
                }) && !d.running() && d.sets() == Seq::<Seq<u8>>::empty() && !d.refused()
                    && d.counts() == (DecoderStats {
                    frames_submitted: 0,
                    frames_emitted: 0,
                    frames_dropped: 0,
                    errors: 0,
                }),
                Err(CodecError::Unsupported(reason)) => codec is Av1 && reason@
                    == "AV1 chưa được hỗ trợ trên đường VideoToolbox"@,
                Err(_) => false,
            },
    {
        if codec == Codec::Av1 {
            return Err(
                CodecError::Unsupported("AV1 chưa được hỗ trợ trên đường VideoToolbox".to_owned()),
            );
        }
        let format_out = match chroma {
            ChromaSubsampling::Yuv420 => FrameFormat::Nv12VideoRange,
            ChromaSubsampling::Yuv422 | ChromaSubsampling::Yuv444 => FrameFormat::P210VideoRange,
        };
        let d = VtDecoder {
            codec,
            format_out,
            has_session: false,
            parameter_sets: Vec::new(),
            stats: DecoderStats {
                frames_submitted: 0,
                frames_emitted: 0,
                frames_dropped: 0,
                errors: 0,
            },
            bad_data: false,
        };
        assert(d.sets() =~= Seq::<Seq<u8>>::empty());
        Ok(d)
    }

    pub fn stats(&self) -> (r: DecoderStats)
        ensures
            r == self.counts(),
    {
        self.stats
    }

    pub fn frame_format(&self) -> (r: FrameFormat)
        ensures
            r == self.format(),
    {
        self.format_out
    }

    /// Whether data was refused since the last call. It almost always means that a frame others
    /// build on got lost: the caller should ask for a keyframe rather than wait.
    pub fn take_bad_data(&mut self) -> (r: bool)
        ensures
            r == old(self).refused(),
            !final(self).refused(),
            final(self).kind() == old(self).kind(),
            final(self).format() == old(self).format(),
            final(self).running() == old(self).running(),
            final(self).sets() == old(self).sets(),
            final(self).counts() == old(self).counts(),
    {
        let was: bool = self.bad_data;
        self.bad_data = false;
        was
    }

    /// Takes an access unit in Annex B form apart.
    pub fn decode(&mut self, data: &[u8]) -> (r: AccessUnit)
        requires
            old(self).can_count(),
        ensures
            bytes(r.sets@) == picked(
                crate::codec::annexb::units(data@, 0),
                old(self).kind(),
                true,
            ),
            r.payload@ == crate::codec::annexb::prefixed(
                picked(crate::codec::annexb::units(data@, 0), old(self).kind(), false),
            ),
            r.rebuild == (r.sets@.len() > 0 && bytes(r.sets@) != old(self).sets()),
            final(self).counts() == (DecoderStats {
                frames_submitted: (old(self).counts().frames_submitted + 1) as u64,
                ..old(self).counts()
            }),
            final(self).kind() == old(self).kind(),
            final(self).format() == old(self).format(),
            final(self).running() == old(self).running(),
            final(self).sets() == old(self).sets(),
            final(self).refused() == old(self).refused(),
    {
        self.stats.frames_submitted = self.stats.frames_submitted + 1;
        let all = iter_nalus(data).collect();
        let ghost units = crate::codec::annexb::units(data@, 0);
        let mut sets: Vec<Vec<u8>> = Vec::new();
        let mut rest: Vec<&[u8]> = Vec::new();
        let mut i: usize = 0;
        assert(bytes(sets@) =~= picked(units.take(0), self.codec, true));
        assert(crate::codec::annexb::views(rest@) =~= picked(units.take(0), self.codec, false));
        while i < all.len()
            invariant
                i <= all@.len(),
                crate::codec::annexb::views(all@) == units,
                bytes(sets@) == picked(units.take(i as int), self.codec, true),
                crate::codec::annexb::views(rest@) == picked(
                    units.take(i as int),
                    self.codec,
                    false,
                ),
            decreases all@.len() - i,
        {
            let nalu: &[u8] = all[i];
            let ghost had_sets = bytes(sets@);
            let ghost had_rest = crate::codec::annexb::views(rest@);
            assert(units.take(i + 1).drop_last() =~= units.take(i as int));
            assert(units.take(i + 1).last() == nalu@);
            if classify(self.codec, nalu) == NaluClass::ParameterSet {
                sets.push(copy_of(nalu));
                assert(bytes(sets@) =~= had_sets.push(nalu@));
            } else {
                rest.push(nalu);
                assert(crate::codec::annexb::views(rest@) =~= had_rest.push(nalu@));
            }
            i += 1;
        }
        assert(units.take(i as int) =~= units);
        let mut payload: Vec<u8> = Vec::new();
        annexb_to_length_prefixed(rest.as_slice(), &mut payload);
        assert(payload@ =~= crate::codec::annexb::prefixed(
            crate::codec::annexb::views(rest@),
        ));
        let rebuild: bool = sets.len() > 0 && !same_sets(&sets, &self.parameter_sets);
        AccessUnit { sets, rebuild, payload }
    }

    /// The pixels to ask a session for. Left alone, it may choose a format that nobody else knows.
    pub fn pixel_format(&self) -> (r: u32)
        ensures
            r == (if self.format() is Nv12VideoRange {
                PIXELS_420
            } else {
                PIXELS_422
            }),
    {
        match self.format_out {
            FrameFormat::Nv12VideoRange => PIXELS_420,
            FrameFormat::P210VideoRange => PIXELS_422,
        }
    }

    /// Takes over a new session for these sets. `described` is the answer to the making of the
    /// format's description, `created` to that of the session. Where one failed, everything stays
    /// as it was.
    pub fn rebuild(&mut self, sets: Vec<Vec<u8>>, described: Answer, created: Answer) -> (r: Result<
        (),
        CodecError,
    >)
        ensures
            !described.good() ==> *final(self) == *old(self) && r == Err::<(), CodecError>(
                CodecError::Decode(described.status),
            ),
            described.good() && !created.good() ==> *final(self) == *old(self) && match r {
                Err(CodecError::SessionCreate { what, status }) => what@ == "giải mã"@ && status
                    == created.status,
                _ => false,
            },
            described.good() && created.good() ==> r is Ok && final(self).running() && final(
                self).sets() == bytes(sets@),
            final(self).counts() == old(self).counts(),
            final(self).kind() == old(self).kind(),
            final(self).format() == old(self).format(),
            final(self).refused() == old(self).refused(),
    {
        if described.status != 0 || !described.present {
            return Err(CodecError::Decode(described.status));
        }
        if created.status != 0 || !created.present {
            return Err(CodecError::SessionCreate { what: "giải mã", status: created.status });
        }
        self.has_session = true;
        self.parameter_sets = sets;
        Ok(())
    }

    /// Whether the payload goes to the session. Before the first keyframe there is none, and the
    /// frame is dropped; parameter sets alone carry no picture.
    pub fn ready(&mut self, payload: &[u8]) -> (r: bool)
        requires
            old(self).can_count(),
        ensures
            r == (old(self).running() && payload@.len() > 0),
            final(self).counts() == (if old(self).running() {
                old(self).counts()
            } else {
                DecoderStats {
                    frames_dropped: (old(self).counts().frames_dropped + 1) as u64,
                    ..old(self).counts()
                }
            }),
            final(self).kind() == old(self).kind(),
            final(self).format() == old(self).format(),
            final(self).running() == old(self).running(),
            final(self).sets() == old(self).sets(),
            final(self).refused() == old(self).refused(),
    {
        if !self.has_session {
            self.stats.frames_dropped = self.stats.frames_dropped + 1;
            return false;
        }
        payload.len() > 0
    }

    /// Notes what the session made of a payload that went in at `started_us`.
    pub fn conclude(
        &mut self,
        outcome: DecodeOutcome,
        pts_us: u64,
        started_us: u64,
        now_us: u64,
    ) -> (r: Result<Option<DecodedFrame>, CodecError>)
        requires
            old(self).can_count(),
        ensures
            match outcome {
                DecodeOutcome::Unmade(status) => r == Err::<Option<DecodedFrame>, CodecError>(
                    CodecError::Decode(status),
                ) && *final(self) == *old(self),
                DecodeOutcome::Failed(status) => r == Err::<Option<DecodedFrame>, CodecError>(
                    CodecError::Decode(status),
                ) && final(self).refused() == old(self).refused() && final(self).counts() == (
                DecoderStats {
                    errors: (old(self).counts().errors + 1) as u64,
                    ..old(self).counts()
                }),
                DecodeOutcome::Picture { width, height } => r == Ok::<
                    Option<DecodedFrame>,
                    CodecError,
                >(
                    Some(
                        DecodedFrame {
                            width: (width as nat % 0x1_0000_0000) as u32,
                            height: (height as nat % 0x1_0000_0000) as u32,
                            format: old(self).format(),
                            pts_us,
                            decode_us: crate::number::elapsed(started_us, now_us),
                        },
                    ),
                ) && !final(self).refused() && final(self).counts() == (DecoderStats {
                    frames_emitted: (old(self).counts().frames_emitted + 1) as u64,
                    ..old(self).counts()
                }),
                DecodeOutcome::Nothing(status) => r == Ok::<Option<DecodedFrame>, CodecError>(None)
                    && final(self).refused() == (old(self).refused() || status != 0) && final(self).counts() == (DecoderStats {
                    frames_dropped: (old(self).counts().frames_dropped + 1) as u64,
                    errors: (old(self).counts().errors + if status != 0 {
                        1int
                    } else {
                        0int
                    }) as u64,
                    ..old(self).counts()
                }),
            },
            final(self).kind() == old(self).kind(),
            final(self).format() == old(self).format(),
            final(self).running() == old(self).running(),
            final(self).sets() == old(self).sets(),
    {
        match outcome {
            DecodeOutcome::Unmade(status) => Err(CodecError::Decode(status)),
            DecodeOutcome::Failed(status) => {
                self.stats.errors = self.stats.errors + 1;
                Err(CodecError::Decode(status))
            },
            DecodeOutcome::Picture { width, height } => {
                self.stats.frames_emitted = self.stats.frames_emitted + 1;
                self.bad_data = false;
                Ok(
                    Some(
                        DecodedFrame {
                            width: (width as u64 % 0x1_0000_0000) as u32,
                            height: (height as u64 % 0x1_0000_0000) as u32,
                            format: self.format_out,
                            pts_us,
                            decode_us: elapsed_us(started_us, now_us),
                        },
                    ),
                )
            },
            DecodeOutcome::Nothing(status) => {
                self.stats.frames_dropped = self.stats.frames_dropped + 1;
                if status != 0 {
                    self.stats.errors = self.stats.errors + 1;
                    self.bad_data = true;
                }
                Ok(None)
            },
        }
    }
}

/// Kilobits to bits, held within an `i32`.
pub open spec fn bits_per_second(kbps: u32) -> i32 {
    let wide = crate::number::as_signed(kbps) * 1000;
    if wide > i32::MAX {
        i32::MAX
    } else if wide < i32::MIN {
        i32::MIN
    } else {
        wide as i32
    }
}

pub fn average_bit_rate(kbps: u32) -> (r: i32)
    ensures
        r == bits_per_second(kbps),
{
    let wide: i64 = signed_of(kbps) as i64 * 1000;
    if wide > i32::MAX as i64 {
        i32::MAX
    } else if wide < i32::MIN as i64 {
        i32::MIN
    } else {
        wide as i32
    }
}

/// Bytes that may leave within a second, half as many again as on average: a keyframe may not
/// fill the network's queues.
pub fn burst_bytes(kbps: u32) -> (r: i64)
    ensures
        r == kbps * 375 / 2,
{
    kbps as i64 * 375 / 2
}

#[derive(Debug, Clone, Copy, PartialEq, Eq, Structural)]
pub enum Profile {
    HevcMain42210,
    HevcMain,
    H264High,
}

/// What is set on a session.
#[derive(Debug, Clone, Copy, PartialEq, Eq, Structural)]
pub enum Setting {
    RealTime(bool),
    AllowFrameReordering(bool),
    ProfileLevel(Profile),
    AverageBitRate(i32),
    /// Bytes within one second.
    DataRateLimits(i64),
    ExpectedFrameRate(i32),
    MaxKeyFrameInterval(i32),
    MaxKeyFrameIntervalDuration(u32),
    PrioritizeEncodingSpeedOverQuality(bool),
}

impl Setting {
    pub open spec fn label(self) -> Seq<char> {
        match self {
            Setting::RealTime(_) => "RealTime"@,
            Setting::AllowFrameReordering(_) => "AllowFrameReordering"@,
            Setting::ProfileLevel(_) => "ProfileLevel"@,
            Setting::AverageBitRate(_) => "AverageBitRate"@,
            Setting::DataRateLimits(_) => "DataRateLimits"@,
            Setting::ExpectedFrameRate(_) => "ExpectedFrameRate"@,
            Setting::MaxKeyFrameInterval(_) => "MaxKeyFrameInterval"@,
            Setting::MaxKeyFrameIntervalDuration(_) => "MaxKeyFrameIntervalDuration"@,
            Setting::PrioritizeEncodingSpeedOverQuality(_) => "PrioritizeEncodingSpeedOverQuality"@,
        }
    }

    pub fn name(self) -> (r: &'static str)
        ensures
            r@ == self.label(),
    {
        match self {
            Setting::RealTime(_) => "RealTime",
            Setting::AllowFrameReordering(_) => "AllowFrameReordering",
            Setting::ProfileLevel(_) => "ProfileLevel",
            Setting::AverageBitRate(_) => "AverageBitRate",
            Setting::DataRateLimits(_) => "DataRateLimits",
            Setting::ExpectedFrameRate(_) => "ExpectedFrameRate",
            Setting::MaxKeyFrameInterval(_) => "MaxKeyFrameInterval",
            Setting::MaxKeyFrameIntervalDuration(_) => "MaxKeyFrameIntervalDuration",
            Setting::PrioritizeEncodingSpeedOverQuality(_) => "PrioritizeEncodingSpeedOverQuality",
        }
    }

    /// Settings without which the latency is lost. An encoder may do without the others.
    pub open spec fn needed(self) -> bool {
        self is RealTime || self is AllowFrameReordering || self is AverageBitRate
    }

    /// What comes of a setting that the session answered with `status`.
    pub fn answered(self, status: i32) -> (r: Result<(), CodecError>)
        ensures
            match r {
                Ok(()) => status == 0 || !self.needed(),
                Err(CodecError::Property { key, status: s }) => status != 0 && self.needed()
                    && key@ == self.label() && s == status,
                Err(_) => false,
            },
    {
        let needed: bool = matches!(
            self,
            Setting::RealTime(_) | Setting::AllowFrameReordering(_) | Setting::AverageBitRate(_)
        );
        if status == 0 || !needed {
            Ok(())
        } else {
            Err(CodecError::Property { key: self.name(), status })
        }
    }
}

/// Whether more colour than 4:2:0 is to be tried first. Only HEVC has it.
pub open spec fn tries_high_chroma(config: EncoderConfig) -> bool {
    config.codec is Hevc && config.chroma !is Yuv420
}

/// What is set before the profile.
pub fn opening_settings() -> (r: Vec<Setting>)
    ensures
        r@ == seq![Setting::RealTime(true), Setting::AllowFrameReordering(false)],
{
    vec![Setting::RealTime(true), Setting::AllowFrameReordering(false)]
}

/// The profile to try first, where there is one.
pub fn first_profile(config: &EncoderConfig) -> (r: Option<Setting>)
    ensures
        r == (if tries_high_chroma(*config) {
            Some(Setting::ProfileLevel(Profile::HevcMain42210))
        } else {
            None
        }),
{
    if config.codec == Codec::Hevc && config.chroma != ChromaSubsampling::Yuv420 {
        Some(Setting::ProfileLevel(Profile::HevcMain42210))
    } else {
        None
    }
}

/// The colour that results, and the profile to fall back to where the first one was not taken.
/// `taken` is whether the hardware took [`first_profile`].
pub fn apply_profile(config: &EncoderConfig, taken: bool) -> (r: (
    ChromaSubsampling,
    Option<Setting>,
))
    ensures
        r == (if tries_high_chroma(*config) && taken {
            (ChromaSubsampling::Yuv422, None)
        } else {
            (
                ChromaSubsampling::Yuv420,
                Some(
                    Setting::ProfileLevel(
                        if config.codec is Hevc {
                            Profile::HevcMain
                        } else {
                            Profile::H264High
                        },
                    ),
                ),
            )
        }),
{
    if config.codec == Codec::Hevc && config.chroma != ChromaSubsampling::Yuv420 && taken {
        return (ChromaSubsampling::Yuv422, None);
    }
    let fallback = match config.codec {
        Codec::Hevc => Profile::HevcMain,
        _ => Profile::H264High,
    };
    (ChromaSubsampling::Yuv420, Some(Setting::ProfileLevel(fallback)))
}

/// What is set behind the profile. No B-frames; keyframes far apart.
pub fn configure(config: &EncoderConfig) -> (r: Vec<Setting>)
    requires
        config.target_fps * config.keyframe_interval_secs <= u32::MAX,
    ensures
        r@ == seq![
            Setting::AverageBitRate(bits_per_second(config.target_bitrate_kbps)),
            Setting::DataRateLimits((config.target_bitrate_kbps * 375 / 2) as i64),
            Setting::ExpectedFrameRate(crate::number::as_signed(config.target_fps)),
            Setting::MaxKeyFrameInterval(
                crate::number::as_signed(
                    if config.target_fps * config.keyframe_interval_secs < 1 {
                        1
                    } else {
                        (config.target_fps * config.keyframe_interval_secs) as u32
                    },
                ),
            ),
            Setting::MaxKeyFrameIntervalDuration(config.keyframe_interval_secs),
            Setting::PrioritizeEncodingSpeedOverQuality(true),
        ],
{
    let product: u32 = config.target_fps * config.keyframe_interval_secs;
    let interval: u32 = if product < 1 { 1 } else { product };
    vec![
        Setting::AverageBitRate(average_bit_rate(config.target_bitrate_kbps)),
        Setting::DataRateLimits(burst_bytes(config.target_bitrate_kbps)),
        Setting::ExpectedFrameRate(signed_of(config.target_fps)),
        Setting::MaxKeyFrameInterval(signed_of(interval)),
        Setting::MaxKeyFrameIntervalDuration(config.keyframe_interval_secs),
        Setting::PrioritizeEncodingSpeedOverQuality(true),
    ]
}

/// What travels with a frame through the encoder.
#[derive(Debug, Clone, Copy, PartialEq, Eq, Structural)]
pub struct SubmitInfo {
    pub pts_us: u64,
    pub submitted_us: u64,
    pub codec: Codec,
}

/// How a frame goes into the encoder.
#[derive(Debug, Clone, Copy, PartialEq, Eq, Structural)]
pub struct Submission {
    pub info: SubmitInfo,
    pub force_keyframe: bool,
    pub duration_us: i64,
}

/// The data of a sample, as the encoder handed it out.
#[derive(Debug)]
pub enum Block {
    Missing,
    Unreadable(i32),
    Data(Vec<u8>),
}

/// What the encoder made of a frame.
#[derive(Debug)]
pub enum Encoded {
    Failed(i32),
    /// Left out, for the encoder could not follow.
    Dropped,
    /// The data, and the parameter sets where there is a format description.
    Sample(Block, Option<Vec<Vec<u8>>>),
}

/// Why a sample's data cannot be sent.
pub ghost enum Fault {
    Bitstream(BitstreamError),
    MissingParameterSets,
    Unsupported,
}

impl Fault {
    pub open spec fn is(self, e: CodecError) -> bool {
        match self {
            Fault::Bitstream(mistake) => e == CodecError::Bitstream(mistake),
            Fault::MissingParameterSets => e == CodecError::MissingParameterSets,
            Fault::Unsupported => e matches CodecError::Unsupported(reason) && reason@
                == "AV1 chưa hỗ trợ"@,
        }
    }
}

/// What is sent for a sample's data: the stream, and whether it is a keyframe.
pub open spec fn stream(
    payload: Seq<u8>,
    codec: Codec,
    sets: Option<Seq<Seq<u8>>>,
) -> Result<(Seq<u8>, bool), Fault> {
    let (list, mistake) = crate::codec::annexb::split(payload);
    let body = crate::codec::annexb::annexb(list);
    match mistake {
        Some(e) => Err(Fault::Bitstream(e)),
        None => if !crate::codec::nalu::any_of(crate::codec::annexb::units(body, 0), codec, NaluClass::Keyframe) {
            Ok((body, false))
        } else {
            match sets {
                None => Err(Fault::MissingParameterSets),
                Some(sets) => if codec is Av1 {
                    Err(Fault::Unsupported)
                } else if sets.len() == 0 {
                    Err(Fault::MissingParameterSets)
                } else {
                    Ok((crate::codec::annexb::annexb(sets) + body, true))
                },
            }
        },
    }
}

/// The views of the sets, where there are any.
pub open spec fn set_views(sets: Option<Vec<Vec<u8>>>) -> Option<Seq<Seq<u8>>> {
    match sets {
        None => None,
        Some(v) => Some(bytes(v@)),
    }
}

proof fn annexb_grows(list: Seq<Seq<u8>>, unit: Seq<u8>)
    ensures
        crate::codec::annexb::annexb(list.push(unit)) == crate::codec::annexb::annexb(list)
            + crate::codec::annexb::start_code() + unit,
    decreases list.len(),
{
    reveal_with_fuel(crate::codec::annexb::annexb, 2);
    if list.len() > 0 {
        annexb_grows(list.drop_first(), unit);
        assert(list.push(unit).drop_first() =~= list.drop_first().push(unit));
        assert(list.push(unit)[0] == list[0]);
    } else {
        assert(list.push(unit).drop_first() =~= list);
    }
    assert(crate::codec::annexb::annexb(list.push(unit)) =~= crate::codec::annexb::annexb(list)
        + crate::codec::annexb::start_code() + unit);
}

/// Turns the encoder's packing into a stream for the network, with the parameter sets before a
/// keyframe: without them a viewer that just connected could decode nothing.
pub fn to_annexb(payload: &[u8], codec: Codec, sets: &Option<Vec<Vec<u8>>>) -> (r: Result<
    (Vec<u8>, bool),
    CodecError,
>)
    ensures
        match stream(payload@, codec, set_views(*sets)) {
            Ok((data, keyframe)) => r matches Ok(out) && out.0@ == data && out.1 == keyframe,
            Err(fault) => r matches Err(e) && fault.is(e),
        },
{
    let mut body: Vec<u8> = Vec::new();
    match length_prefixed_to_annexb(payload, &mut body) {
        Ok(()) => {},
        Err(e) => {
            return Err(CodecError::Bitstream(e));
        },
    }
    assert(body@ =~= crate::codec::annexb::annexb(crate::codec::annexb::split(payload@).0));
    if !holds_class(body.as_slice(), codec, NaluClass::Keyframe) {
        return Ok((body, false));
    }
    match sets {
        None => Err(CodecError::MissingParameterSets),
        Some(list) => {
            if codec == Codec::Av1 {
                return Err(CodecError::Unsupported("AV1 chưa hỗ trợ".to_owned()));
            }
            if list.len() == 0 {
                return Err(CodecError::MissingParameterSets);
            }
            let mut out: Vec<u8> = Vec::new();
            let ghost all = bytes(list@);
            let mut i: usize = 0;
            assert(out@ =~= crate::codec::annexb::annexb(all.take(0)));
            while i < list.len()
                invariant
                    i <= list@.len(),
                    all == bytes(list@),
                    out@ == crate::codec::annexb::annexb(all.take(i as int)),
                decreases list@.len() - i,
            {
                push_nalu(&mut out, list[i].as_slice());
                proof {
                    assert(all[i as int] == list@[i as int]@);
                    annexb_grows(all.take(i as int), all[i as int]);
                    assert(all.take(i + 1) =~= all.take(i as int).push(all[i as int]));
                }
                i += 1;
            }
            assert(all.take(i as int) =~= all);
            let ghost head = out@;
            out.extend_from_slice(body.as_slice());
            assert(out@ =~= head + body@);
            Ok((out, true))
        },
    }
}

/// Two streams one behind the other are the stream of all their units.
pub proof fn annexb_joins(a: Seq<Seq<u8>>, b: Seq<Seq<u8>>)
    ensures
        crate::codec::annexb::annexb(a) + crate::codec::annexb::annexb(b)
            == crate::codec::annexb::annexb(a + b),
    decreases a.len(),
{
    if a.len() == 0 {
        assert(a + b =~= b);
        assert(crate::codec::annexb::annexb(a) + crate::codec::annexb::annexb(b)
            =~= crate::codec::annexb::annexb(b));
    } else {
        annexb_joins(a.drop_first(), b);
        assert((a + b).drop_first() =~= a.drop_first() + b);
        assert((a + b)[0] == a[0]);
        assert(crate::codec::annexb::annexb(a) + crate::codec::annexb::annexb(b)
            =~= crate::codec::annexb::annexb(a + b));
    }
}

proof fn picked_joins(a: Seq<Seq<u8>>, b: Seq<Seq<u8>>, codec: Codec, sets: bool)
    ensures
        picked(a + b, codec, sets) == picked(a, codec, sets) + picked(b, codec, sets),
    decreases b.len(),
{
    if b.len() == 0 {
        assert(a + b =~= a);
        assert(picked(a, codec, sets) + picked(b, codec, sets) =~= picked(a, codec, sets));
    } else {
        picked_joins(a, b.drop_last(), codec, sets);
        assert((a + b).drop_last() =~= a + b.drop_last());
        assert((a + b).last() == b.last());
        assert(picked(a + b, codec, sets) =~= picked(a, codec, sets) + picked(b, codec, sets));
    }
}

proof fn picked_is_all(list: Seq<Seq<u8>>, codec: Codec, sets: bool)
    requires
        forall|i: int|
            0 <= i < list.len() ==> (#[trigger] crate::codec::nalu::class_of(codec, list[i]) is ParameterSet) == sets,
    ensures
        picked(list, codec, sets) == list,
        picked(list, codec, !sets) == Seq::<Seq<u8>>::empty(),
    decreases list.len(),
{
    if list.len() > 0 {
        assert forall|i: int| 0 <= i < list.drop_last().len() implies (#[trigger] crate::codec::nalu::class_of(
            codec,
            list.drop_last()[i],
        ) is ParameterSet) == sets by {
            assert(list.drop_last()[i] == list[i]);
        }
        picked_is_all(list.drop_last(), codec, sets);
        assert(crate::codec::nalu::class_of(codec, list[list.len() - 1]) is ParameterSet == sets);
        assert(list.drop_last().push(list.last()) =~= list);
    } else {
        assert(list =~= Seq::<Seq<u8>>::empty());
    }
}

/// A viewer that joins at a keyframe can decode it: what an encoder sent for `list` and its
/// parameter sets comes apart into just these sets and these units again.
pub proof fn keyframes_bring_their_sets(
    list: Seq<Seq<u8>>,
    sets: Seq<Seq<u8>>,
    codec: Codec,
)
    requires
        forall|k: int|
            0 <= k < list.len() ==> 0 < (#[trigger] list[k]).len() < 0x1_0000_0000
                && crate::codec::annexb::clean(list[k]),
        forall|k: int|
            0 <= k < sets.len() ==> 0 < (#[trigger] sets[k]).len()
                && crate::codec::annexb::clean(sets[k]),
        sets.len() > 0,
        codec !is Av1,
        forall|k: int|
            0 <= k < sets.len() ==> #[trigger] crate::codec::nalu::class_of(codec, sets[k]) is ParameterSet,
        forall|k: int|
            0 <= k < list.len() ==> !(#[trigger] crate::codec::nalu::class_of(codec, list[k]) is ParameterSet),
        crate::codec::nalu::any_of(list, codec, NaluClass::Keyframe),
    ensures
        match stream(crate::codec::annexb::prefixed(list), codec, Some(sets)) {
            Ok((data, keyframe)) => keyframe && picked(
                crate::codec::annexb::units(data, 0),
                codec,
                true,
            ) == sets && picked(crate::codec::annexb::units(data, 0), codec, false) == list,
            Err(_) => false,
        },
{
    crate::codec::annexb::stream_roundtrip(list);
    crate::codec::annexb::length_prefix_roundtrip(list);
    annexb_joins(sets, list);
    let both = sets + list;
    assert forall|k: int| 0 <= k < both.len() implies (#[trigger] both[k]).len() > 0
        && crate::codec::annexb::clean(both[k]) by {
        if k < sets.len() {
            assert(both[k] == sets[k]);
        } else {
            assert(both[k] == list[k - sets.len()]);
        }
    }
    crate::codec::annexb::annexb_roundtrip(both);
    picked_joins(sets, list, codec, true);
    picked_joins(sets, list, codec, false);
    picked_is_all(sets, codec, true);
    picked_is_all(list, codec, false);
    assert(sets + Seq::<Seq<u8>>::empty() =~= sets);
    assert(Seq::<Seq<u8>>::empty() + list =~= list);
}

pub struct VtEncoder {
    config: EncoderConfig,
    actual_chroma: ChromaSubsampling,
    hardware: bool,
    force_keyframe: bool,
    stats: EncoderStats,
}

impl VtEncoder {
    pub closed spec fn settings(&self) -> EncoderConfig {
        self.config
    }

    pub closed spec fn chroma(&self) -> ChromaSubsampling {
        self.actual_chroma
    }

    pub closed spec fn in_hardware(&self) -> bool {
        self.hardware
    }

    pub closed spec fn asked(&self) -> bool {
        self.force_keyframe
    }

    pub closed spec fn counts(&self) -> EncoderStats {
        self.stats
    }

    /// Everything but the counters and the wish for a keyframe is as before.
    pub open spec fn kept(&self, before: &Self) -> bool {
        self.settings() == before.settings() && self.chroma() == before.chroma()
            && self.in_hardware() == before.in_hardware()
    }

    /// `status` is the answer to the making of the session and `present` whether one came,
    /// `configured` what setting it up came to, with the colour of [`apply_profile`], and `hardware`
    /// what the session says of itself.
    pub fn new(
        config: EncoderConfig,
        status: i32,
        present: bool,
        configured: Result<ChromaSubsampling, CodecError>,
        hardware: Option<bool>,
    ) -> (r: Result<Self, CodecError>)
        ensures
            config.codec is Av1 ==> match r {
                Err(CodecError::Unsupported(reason)) => reason@
                    == "VideoToolbox không mã hoá được AV1"@,
                _ => false,
            },
            config.codec !is Av1 && !(status == 0 && present) ==> match r {
                Err(CodecError::SessionCreate { what, status: s }) => s == status && what@
                    == "mã hoá"@,
                _ => false,
            },
            config.codec !is Av1 && status == 0 && present ==> match configured {
                Ok(chroma) => r matches Ok(e) && e.settings() == config && e.chroma() == chroma
                    && e.in_hardware() == (hardware == Some(true)) && !e.asked() && e.counts() == (
                EncoderStats {
                    frames_submitted: 0,
                    frames_emitted: 0,
                    frames_dropped: 0,
                    bytes_emitted: 0,
                    errors: 0,
                }),
                Err(e) => r == Err::<Self, CodecError>(e),
            },
    {
        match codec_type(config.codec) {
            Ok(_) => {},
            Err(e) => {
                return Err(e);
            },
        }
        if status != 0 || !present {
            return Err(CodecError::SessionCreate { what: "mã hoá", status });
        }
        let chroma = match configured {
            Ok(chroma) => chroma,
            Err(e) => {
                return Err(e);
            },
        };
        let hardware: bool = match hardware {
            Some(known) => known,
            None => false,
        };
        Ok(
            VtEncoder {
                config,
                actual_chroma: chroma,
                hardware,
                force_keyframe: false,
                stats: EncoderStats {
                    frames_submitted: 0,
                    frames_emitted: 0,
                    frames_dropped: 0,
                    bytes_emitted: 0,
                    errors: 0,
                },
            },
        )
    }

    /// The colour that the hardware takes, at most what was wished for.
    pub fn actual_chroma(&self) -> (r: ChromaSubsampling)
        ensures
            r == self.chroma(),
    {
        self.actual_chroma
    }

    pub fn is_hardware(&self) -> (r: bool)
        ensures
            r == self.in_hardware(),
    {
        self.hardware
    }

    pub fn config(&self) -> (r: &EncoderConfig)
        ensures
            *r == self.settings(),
    {
        &self.config
    }

    /// The next frame shall be a keyframe: the only way for the picture to recover from a loss.
    pub fn request_keyframe(&mut self)
        ensures
            final(self).asked(),
            final(self).kept(old(self)),
            final(self).counts() == old(self).counts(),
    {
        self.force_keyframe = true;
    }

    /// Notes a new bit rate, which the session answered with `status`. The session is kept.
    pub fn set_bitrate(&mut self, kbps: u32, status: i32) -> (r: Result<(), CodecError>)
        ensures
            match r {
                Ok(()) => status == 0 && final(self).settings() == (EncoderConfig {
                    target_bitrate_kbps: kbps,
                    ..old(self).settings()
                }),
                Err(CodecError::Property { key, status: s }) => status != 0 && s == status && key@
                    == "AverageBitRate"@ && final(self).settings() == old(self).settings(),
                Err(_) => false,
            },
            final(self).chroma() == old(self).chroma(),
            final(self).in_hardware() == old(self).in_hardware(),
            final(self).asked() == old(self).asked(),
            final(self).counts() == old(self).counts(),
    {
        match Setting::AverageBitRate(average_bit_rate(kbps)).answered(status) {
            Ok(()) => {},
            Err(e) => {
                return Err(e);
            },
        }
        self.config.target_bitrate_kbps = kbps;
        Ok(())
    }

    /// How the next frame goes in.
    pub fn submit(&self, pts_us: u64, now_us: u64) -> (r: Submission)
        ensures
            r == (Submission {
                info: SubmitInfo { pts_us, submitted_us: now_us, codec: self.settings().codec },
                force_keyframe: self.asked(),
                duration_us: (1_000_000u32 / (if self.settings().target_fps < 1 {
                    1u32
                } else {
                    self.settings().target_fps
                })) as i64,
            }),
    {
        let fps: u32 = if self.config.target_fps < 1 { 1 } else { self.config.target_fps };
        Submission {
            info: SubmitInfo { pts_us, submitted_us: now_us, codec: self.config.codec },
            force_keyframe: self.force_keyframe,
            duration_us: (1_000_000u32 / fps) as i64,
        }
    }

    /// Notes how the session took a frame. A wish for a keyframe stays until a frame went in.
    pub fn submitted(&mut self, status: i32) -> (r: Result<(), CodecError>)
        ensures
            status == 0 ==> r == Ok::<(), CodecError>(()) && !final(self).asked() && final(self).counts() == (EncoderStats {
                frames_submitted: crate::number::counted(old(self).counts().frames_submitted, 1),
                ..old(self).counts()
            }),
            status != 0 ==> r == Err::<(), CodecError>(CodecError::Encode(status)) && final(self).asked() == old(self).asked() && final(self).counts() == (EncoderStats {
                errors: crate::number::counted(old(self).counts().errors, 1),
                ..old(self).counts()
            }),
            final(self).kept(old(self)),
    {
        if status != 0 {
            self.stats.errors = count(self.stats.errors, 1);
            return Err(CodecError::Encode(status));
        }
        self.force_keyframe = false;
        self.stats.frames_submitted = count(self.stats.frames_submitted, 1);
        Ok(())
    }

    /// The next coded frame, after waiting for it.
    pub fn next_frame(&self, waited: Waited) -> (r: Result<EncodedFrame, CodecError>)
        ensures
            r == waited.meaning(),
    {
        waited.told()
    }

    /// A coded frame that is there already. That the encoder is gone looks like no frame.
    pub fn try_next_frame(&self, waited: Waited) -> (r: Option<EncodedFrame>)
        ensures
            r == (match waited {
                Waited::Frame(frame) => Some(frame),
                _ => None,
            }),
    {
        match waited {
            Waited::Frame(frame) => Some(frame),
            _ => None,
        }
    }

    /// What pushing out the frames that are still inside came to.
    pub fn flush(&self, status: i32) -> (r: Result<(), CodecError>)
        ensures
            r == (if status == 0 {
                Ok::<(), CodecError>(())
            } else {
                Err(CodecError::Encode(status))
            }),
    {
        if status == 0 {
            Ok(())
        } else {
            Err(CodecError::Encode(status))
        }
    }

    /// Notes what the encoder made of a frame, and hands out the frame to send.
    pub fn encoded(&mut self, info: SubmitInfo, outcome: Encoded, now_us: u64) -> (r: Option<
        EncodedFrame,
    >)
        ensures
            final(self).kept(old(self)),
            final(self).asked() == old(self).asked(),
            match made(info.codec, outcome) {
                Made::Dropped => r is None && final(self).counts() == (EncoderStats {
                    frames_dropped: crate::number::counted(old(self).counts().frames_dropped, 1),
                    ..old(self).counts()
                }),
                Made::Error => r is None && final(self).counts() == (EncoderStats {
                    errors: crate::number::counted(old(self).counts().errors, 1),
                    ..old(self).counts()
                }),
                Made::Frame(data, keyframe) => r matches Some(frame) && frame.data@ == data
                    && frame.keyframe == keyframe && frame.pts_us == info.pts_us && frame.encode_us
                    == crate::number::elapsed(info.submitted_us, now_us) && final(self).counts() == (
                EncoderStats {
                    frames_emitted: crate::number::counted(old(self).counts().frames_emitted, 1),
                    bytes_emitted: crate::number::counted(old(self).counts().bytes_emitted, data.len()),
                    ..old(self).counts()
                }),
            },
    {
        let result = match outcome {
            Encoded::Failed(status) => Err(CodecError::Encode(status)),
            Encoded::Dropped => {
                self.stats.frames_dropped = count(self.stats.frames_dropped, 1);
                return None;
            },
            Encoded::Sample(Block::Missing, _) => Err(
                CodecError::Bitstream(BitstreamError::Truncated),
            ),
            Encoded::Sample(Block::Unreadable(status), _) => Err(CodecError::Encode(status)),
            Encoded::Sample(Block::Data(payload), sets) => to_annexb(
                payload.as_slice(),
                info.codec,
                &sets,
            ),
        };
        match result {
            Ok((data, keyframe)) => {
                self.stats.bytes_emitted = count(self.stats.bytes_emitted, data.len() as u64);
                self.stats.frames_emitted = count(self.stats.frames_emitted, 1);
                Some(
                    EncodedFrame {
                        data,
                        keyframe,
                        pts_us: info.pts_us,
                        encode_us: elapsed_us(info.submitted_us, now_us),
                    },
                )
            },
            Err(_) => {
                self.stats.errors = count(self.stats.errors, 1);
                None
            },
        }
    }

    pub fn stats(&self) -> (r: EncoderStats)
        ensures
            r == self.counts(),
    {
        self.stats
    }
}

/// What becomes of a frame.
pub ghost enum Made {
    Frame(Seq<u8>, bool),
    Dropped,
    Error,
}

pub open spec fn made(codec: Codec, outcome: Encoded) -> Made {
    match outcome {
        Encoded::Dropped => Made::Dropped,
        Encoded::Sample(Block::Data(payload), sets) => match stream(
            payload@,
            codec,
            set_views(sets),
        ) {
            Ok((data, keyframe)) => Made::Frame(data, keyframe),
            Err(_) => Made::Error,
        },
        _ => Made::Error,
    }
}

/// Taking a frame apart loses nothing: its parameter sets on one side and all the rest on the
/// other, each in the order in which they stood.
pub proof fn units_are_sets_or_the_rest(units: Seq<Seq<u8>>, codec: Codec)
    ensures
        picked(units, codec, true) == units.filter(
            |unit: Seq<u8>| crate::codec::nalu::class_of(codec, unit) is ParameterSet,
        ),
        picked(units, codec, false) == units.filter(
            |unit: Seq<u8>| !(crate::codec::nalu::class_of(codec, unit) is ParameterSet),
        ),
        picked(units, codec, true).len() + picked(units, codec, false).len() == units.len(),
    decreases units.len(),
{
    reveal(Seq::filter);
    if units.len() > 0 {
        units_are_sets_or_the_rest(units.drop_last(), codec);
    }
}

/// A bit is a thousandth of a kilobit. Rates that do not fit stop at the end of the range.
pub proof fn kilobits_are_a_thousand_bits(kbps: u32)
    ensures
        kbps <= 2_147_483 ==> bits_per_second(kbps) == 1000 * kbps,
        2_147_483 < kbps < 0x8000_0000 ==> bits_per_second(kbps) == 0x7fff_ffff,
        kbps >= 0x8000_0000 ==> bits_per_second(kbps) < 0,
        kbps >= 4_292_819_813 ==> bits_per_second(kbps) == 1000 * (kbps - 0x1_0000_0000),
{
}

/// Three settings may not be missed: real time, the order of frames, and the bit rate.
pub proof fn three_settings_are_needed(setting: Setting)
    ensures
        setting.needed() <==> !(setting is ProfileLevel || setting is DataRateLimits || setting
            is ExpectedFrameRate || setting is MaxKeyFrameInterval || setting
            is MaxKeyFrameIntervalDuration || setting is PrioritizeEncodingSpeedOverQuality),
{
}

/// More colour is tried for HEVC alone, and only where more is wished for.
pub proof fn more_colour_is_tried_for_hevc(config: EncoderConfig)
    ensures
        tries_high_chroma(config) <==> config.codec == Codec::Hevc && (config.chroma
            == ChromaSubsampling::Yuv422 || config.chroma == ChromaSubsampling::Yuv444),
{
}

/// What goes out for a frame that is no keyframe is its units and nothing else, whatever parameter
/// sets there are. Without any a keyframe cannot go out. A frame whose packing is broken is a
/// failure, and says how.
pub proof fn frames_go_out_as_their_units(
    list: Seq<Seq<u8>>,
    sets: Option<Seq<Seq<u8>>>,
    codec: Codec,
)
    requires
        forall|k: int|
            0 <= k < list.len() ==> 0 < (#[trigger] list[k]).len() < 0x1_0000_0000
                && crate::codec::annexb::clean(list[k]),
    ensures
        ({
            let out = stream(crate::codec::annexb::prefixed(list), codec, sets);
            let key = exists|k: int|
                0 <= k < list.len() && #[trigger] crate::codec::nalu::class_of(codec, list[k])
                    is Keyframe;
            &&& !key ==> out == Ok::<(Seq<u8>, bool), Fault>(
                (crate::codec::annexb::annexb(list), false),
            )
            &&& key && sets is None ==> out == Err::<(Seq<u8>, bool), Fault>(
                Fault::MissingParameterSets,
            )
            &&& key && codec is Av1 && sets is Some ==> out == Err::<(Seq<u8>, bool), Fault>(
                Fault::Unsupported,
            )
            &&& key && !(codec is Av1) && (sets matches Some(given) && given.len() == 0) ==> out
                == Err::<(Seq<u8>, bool), Fault>(Fault::MissingParameterSets)
            &&& key && !(codec is Av1) && (sets matches Some(given) && given.len() > 0) ==> out
                == Ok::<(Seq<u8>, bool), Fault>(
                (
                    crate::codec::annexb::annexb(sets->0) + crate::codec::annexb::annexb(list),
                    true,
                ),
            )
        }),
{
    crate::codec::annexb::stream_roundtrip(list);
    crate::codec::annexb::length_prefix_roundtrip(list);
    let key = exists|k: int|
        0 <= k < list.len() && #[trigger] crate::codec::nalu::class_of(codec, list[k]) is Keyframe;
    assert(key == crate::codec::nalu::any_of(list, codec, NaluClass::Keyframe));
}

/// Broken packing is told as it was found.
pub proof fn broken_frames_do_not_go_out(
    list: Seq<Seq<u8>>,
    tail: Seq<u8>,
    sets: Option<Seq<Seq<u8>>>,
    codec: Codec,
)
    requires
        forall|k: int| 0 <= k < list.len() ==> (#[trigger] list[k]).len() < 0x1_0000_0000,
        0 < tail.len() < 4,
    ensures
        stream(crate::codec::annexb::prefixed(list) + tail, codec, sets) == Err::<
            (Seq<u8>, bool),
            Fault,
        >(Fault::Bitstream(BitstreamError::Truncated)),
{
    crate::codec::annexb::mistakes_keep_what_came_before(list, tail);
}

/// A frame that the encoder left out counts as dropped, one that it failed on or that cannot be
/// read as an error, and any other goes out as its stream says.
pub proof fn each_frame_has_one_end(codec: Codec, outcome: Encoded)
    ensures
        made(codec, outcome) is Dropped <==> outcome is Dropped,
        outcome is Failed ==> made(codec, outcome) is Error,
        outcome matches Encoded::Sample(block, sets) ==> match block {
            Block::Data(payload) => match stream(payload@, codec, set_views(sets)) {
                Ok(sent) => made(codec, outcome) == Made::Frame(sent.0, sent.1),
                Err(_) => made(codec, outcome) is Error,
            },
            _ => made(codec, outcome) is Error,
        },
{
}

/// What an access unit has is either a parameter set or goes to the session, all of it and in
/// order; a session is made anew exactly where sets came and they are others than before. The unit
/// is counted as submitted and nothing else changes.
pub proof fn access_units_come_apart(decoder: &mut VtDecoder, data: &[u8], r: AccessUnit)
    requires
        old(decoder).can_count(),
        call_ensures(VtDecoder::decode, (decoder, data), r),
    ensures
        ({
            let units = crate::codec::annexb::units(data@, 0);
            let codec = old(decoder).kind();
            &&& bytes(r.sets@) == units.filter(
                |unit: Seq<u8>| crate::codec::nalu::class_of(codec, unit) is ParameterSet,
            )
            &&& r.payload@ == crate::codec::annexb::prefixed(
                units.filter(
                    |unit: Seq<u8>| !(crate::codec::nalu::class_of(codec, unit) is ParameterSet),
                ),
            )
            &&& r.rebuild <==> r.sets@.len() > 0 && bytes(r.sets@) != old(decoder).sets()
        }),
        final(decoder).counts().frames_submitted == old(decoder).counts().frames_submitted + 1,
        final(decoder).counts().frames_emitted == old(decoder).counts().frames_emitted,
        final(decoder).counts().frames_dropped == old(decoder).counts().frames_dropped,
        final(decoder).counts().errors == old(decoder).counts().errors,
        final(decoder).sets() == old(decoder).sets(),
        final(decoder).running() == old(decoder).running(),
{
    units_are_sets_or_the_rest(crate::codec::annexb::units(data@, 0), old(decoder).kind());
}

/// A new session counts for the sets that it was made for, so the same sets do not make it again.
/// Where it could not be made, the one before stays.
pub proof fn new_sessions_count_for_their_sets(
    building: &mut VtDecoder,
    later: &mut VtDecoder,
    sets: Vec<Vec<u8>>,
    described: Answer,
    created: Answer,
    r: Result<(), CodecError>,
    data: &[u8],
    unit: AccessUnit,
)
    requires
        call_ensures(VtDecoder::rebuild, (building, sets, described, created), r),
        *old(later) == *final(building),
        old(later).can_count(),
        call_ensures(VtDecoder::decode, (later, data), unit),
    ensures
        ({
            let good = described.status == 0 && described.present && created.status == 0
                && created.present;
            &&& r is Ok <==> good
            &&& good ==> final(building).running()
            &&& good && bytes(unit.sets@) == bytes(sets@) ==> !unit.rebuild
            &&& !good ==> *final(building) == *old(building)
            &&& !(described.status == 0 && described.present) ==> r == Err::<(), CodecError>(
                CodecError::Decode(described.status),
            )
        }),
{
}

/// Without a session a frame is dropped and counted so; with one, all but an empty payload goes in.
pub proof fn payloads_need_a_session(decoder: &mut VtDecoder, payload: &[u8], goes: bool)
    requires
        old(decoder).can_count(),
        call_ensures(VtDecoder::ready, (decoder, payload), goes),
    ensures
        goes <==> old(decoder).running() && payload@.len() > 0,
        !old(decoder).running() ==> final(decoder).counts().frames_dropped == old(decoder).counts().frames_dropped + 1,
        old(decoder).running() ==> final(decoder).counts() == old(decoder).counts(),
        final(decoder).counts().errors == old(decoder).counts().errors,
        final(decoder).refused() == old(decoder).refused(),
{
}

/// A picture comes out with its size, the time stamp that went in and how long it took; it is
/// counted, and data counts as refused no more. No picture is counted as dropped, and as refused
/// data where the session said so.
pub proof fn pictures_come_out_as_they_are(
    decoder: &mut VtDecoder,
    outcome: DecodeOutcome,
    pts_us: u64,
    started_us: u64,
    now_us: u64,
    r: Result<Option<DecodedFrame>, CodecError>,
)
    requires
        old(decoder).can_count(),
        call_ensures(VtDecoder::conclude, (decoder, outcome, pts_us, started_us, now_us), r),
    ensures
        ({
            let before = old(decoder).counts();
            let after = final(decoder).counts();
            &&& outcome matches DecodeOutcome::Picture { width, height } ==> {
                &&& r matches Ok(Some(frame))
                &&& width < 0x1_0000_0000 ==> frame.width == width
                &&& height < 0x1_0000_0000 ==> frame.height == height
                &&& frame.pts_us == pts_us
                &&& frame.format == old(decoder).format()
                &&& started_us <= now_us < started_us + 0x1_0000_0000 ==> started_us
                    + frame.decode_us == now_us
                &&& after.frames_emitted == before.frames_emitted + 1
                &&& after.frames_dropped == before.frames_dropped
                &&& after.errors == before.errors
                &&& !final(decoder).refused()
            }
            &&& outcome matches DecodeOutcome::Nothing(status) ==> {
                &&& r matches Ok(None)
                &&& after.frames_dropped == before.frames_dropped + 1
                &&& after.frames_emitted == before.frames_emitted
                &&& status == 0 ==> after.errors == before.errors && final(decoder).refused()
                    == old(decoder).refused()
                &&& status != 0 ==> after.errors == before.errors + 1 && final(decoder).refused()
            }
            &&& outcome matches DecodeOutcome::Failed(status) ==> {
                &&& r == Err::<Option<DecodedFrame>, CodecError>(CodecError::Decode(status))
                &&& after.errors == before.errors + 1
                &&& after.frames_dropped == before.frames_dropped
                &&& final(decoder).refused() == old(decoder).refused()
            }
            &&& outcome matches DecodeOutcome::Unmade(status) ==> after == before && r == Err::<
                Option<DecodedFrame>,
                CodecError,
            >(CodecError::Decode(status))
            &&& after.frames_submitted == before.frames_submitted
        }),
{
    crate::number::short_times_are_exact(started_us, now_us);
    if let DecodeOutcome::Picture { width, height } = outcome {
        if width < 0x1_0000_0000 {
            vstd::arithmetic::div_mod::lemma_small_mod(width as nat, 0x1_0000_0000);
        }
        if height < 0x1_0000_0000 {
            vstd::arithmetic::div_mod::lemma_small_mod(height as nat, 0x1_0000_0000);
        }
    }
}

/// A wish for a keyframe goes with the next frame, and is over once a frame went in; a frame that
/// was not taken leaves it standing.
pub proof fn keyframe_wishes_last_until_taken(
    asking: &mut VtEncoder,
    sending: &VtEncoder,
    taken: &mut VtEncoder,
    pts_us: u64,
    now_us: u64,
    submission: Submission,
    status: i32,
    r: Result<(), CodecError>,
)
    requires
        call_ensures(VtEncoder::request_keyframe, (asking,), ()),
        *sending == *final(asking),
        call_ensures(VtEncoder::submit, (sending, pts_us, now_us), submission),
        *old(taken) == *sending,
        call_ensures(VtEncoder::submitted, (taken, status), r),
    ensures
        submission.force_keyframe,
        submission.info.pts_us == pts_us,
        submission.info.submitted_us == now_us,
        submission.info.codec == old(asking).settings().codec,
        r is Ok <==> status == 0,
        final(taken).asked() <==> status != 0,
        final(taken).settings() == old(asking).settings(),
        old(taken).counts().frames_submitted < 0xffff_ffff_ffff_ffff && status == 0 ==> final(taken).counts().frames_submitted == old(taken).counts().frames_submitted + 1,
{
    crate::number::counters_grow(old(taken).counts().frames_submitted, 1);
}

/// A frame that nobody asked to be a keyframe is not forced to be one, and lasts its share of a
/// second.
pub proof fn frames_last_their_share(
    encoder: &VtEncoder,
    pts_us: u64,
    now_us: u64,
    submission: Submission,
)
    requires
        call_ensures(VtEncoder::submit, (encoder, pts_us, now_us), submission),
    ensures
        submission.force_keyframe == encoder.asked(),
        encoder.settings().target_fps == 0 ==> submission.duration_us == 1_000_000,
        ({
            let fps = encoder.settings().target_fps as int;
            fps > 0 ==> fps * submission.duration_us <= 1_000_000 < fps * (submission.duration_us
                + 1)
        }),
{
    let fps = encoder.settings().target_fps as int;
    if fps > 0 {
        let us = 1_000_000int / fps;
        vstd::arithmetic::div_mod::lemma_fundamental_div_mod(1_000_000, fps);
        vstd::arithmetic::div_mod::lemma_mod_bound(1_000_000, fps);
        assert(fps * (us + 1) == fps * us + fps) by (nonlinear_arith);
        assert(0 <= us <= 1_000_000) by (nonlinear_arith)
            requires
                us == 1_000_000int / fps,
                fps > 0,
        ;
    }
}

/// A coded frame goes out with the time stamp that went in and how long the encoder took; it and
/// its bytes are counted. What the encoder left out counts as dropped, and what it failed on as an
/// error; then nothing goes out.
pub proof fn coded_frames_go_out(
    encoder: &mut VtEncoder,
    info: SubmitInfo,
    outcome: Encoded,
    now_us: u64,
    r: Option<EncodedFrame>,
)
    requires
        call_ensures(VtEncoder::encoded, (encoder, info, outcome, now_us), r),
        old(encoder).counts().frames_emitted < 0xffff_ffff,
        old(encoder).counts().frames_dropped < 0xffff_ffff,
        old(encoder).counts().errors < 0xffff_ffff,
    ensures
        ({
            let before = old(encoder).counts();
            let after = final(encoder).counts();
            &&& r matches Some(frame) ==> {
                &&& outcome matches Encoded::Sample(Block::Data(payload), sets)
                &&& stream(payload@, info.codec, set_views(sets)) == Ok::<
                    (Seq<u8>, bool),
                    Fault,
                >((frame.data@, frame.keyframe))
                &&& frame.pts_us == info.pts_us
                &&& info.submitted_us <= now_us < info.submitted_us + 0x1_0000_0000
                    ==> info.submitted_us + frame.encode_us == now_us
                &&& after.frames_emitted == before.frames_emitted + 1
                &&& before.bytes_emitted + frame.data@.len() < 0x1_0000_0000_0000_0000
                    ==> after.bytes_emitted == before.bytes_emitted + frame.data@.len()
                &&& after.frames_dropped == before.frames_dropped
                &&& after.errors == before.errors
            }
            &&& outcome is Dropped ==> r is None && after.frames_dropped == before.frames_dropped
                + 1 && after.errors == before.errors
            &&& r is None && !(outcome is Dropped) ==> after.errors == before.errors + 1
                && after.frames_dropped == before.frames_dropped
            &&& r is None ==> after.frames_emitted == before.frames_emitted && after.bytes_emitted
                == before.bytes_emitted
            &&& outcome is Failed ==> r is None
            &&& after.frames_submitted == before.frames_submitted
            &&& final(encoder).asked() == old(encoder).asked()
        }),
{
    crate::number::short_times_are_exact(info.submitted_us, now_us);
    crate::number::counters_grow(old(encoder).counts().frames_emitted, 1);
    crate::number::counters_grow(old(encoder).counts().frames_dropped, 1);
    crate::number::counters_grow(old(encoder).counts().errors, 1);
    if let Some(frame) = r {
        crate::number::counters_grow(old(encoder).counts().bytes_emitted, frame.data@.len());
    }
}

/// An encoder is what was configured and what the hardware gave; AV1 there is none for, and a
/// session that did not come is a failure.
pub proof fn encoders_need_a_session(
    config: EncoderConfig,
    status: i32,
    present: bool,
    configured: Result<ChromaSubsampling, CodecError>,
    hardware: Option<bool>,
    r: Result<VtEncoder, CodecError>,
)
    requires
        call_ensures(VtEncoder::new, (config, status, present, configured, hardware), r),
    ensures
        r is Ok <==> !(config.codec is Av1) && status == 0 && present && configured is Ok,
        r matches Ok(e) ==> e.settings() == config && configured == Ok::<
            ChromaSubsampling,
            CodecError,
        >(e.chroma()) && (e.in_hardware() <==> hardware == Some(true)) && !e.asked(),
{
}

/// What a session is asked for: the rate, half as much again for a burst, the frame rate, keyframes
/// as far apart as configured, and speed before quality.
pub proof fn sessions_are_asked_for_speed(config: &EncoderConfig, r: Vec<Setting>)
    requires
        config.target_fps * config.keyframe_interval_secs <= 0xffff_ffff,
        call_ensures(configure, (config,), r),
        0 < config.target_bitrate_kbps <= 2_147_483,
        0 < config.target_fps < 0x8000_0000,
        0 < config.target_fps * config.keyframe_interval_secs < 0x8000_0000,
    ensures
        r@.len() == 6,
        r@[0] matches Setting::AverageBitRate(bits) && bits == 1000 * config.target_bitrate_kbps,
        r@[1] matches Setting::DataRateLimits(bytes) && 16 * bytes <= 3000
            * config.target_bitrate_kbps < 16 * bytes + 16,
        r@[2] matches Setting::ExpectedFrameRate(fps) && fps == config.target_fps,
        r@[3] matches Setting::MaxKeyFrameInterval(frames) && frames == config.target_fps
            * config.keyframe_interval_secs,
        r@[4] matches Setting::MaxKeyFrameIntervalDuration(secs) && secs
            == config.keyframe_interval_secs,
        r@[5] == Setting::PrioritizeEncodingSpeedOverQuality(true),
{
    kilobits_are_a_thousand_bits(config.target_bitrate_kbps);
}

/// HEVC and H.264 have a type of their own; AV1 has none, and no decoder.
pub proof fn two_codecs_have_a_type(
    codec: Codec,
    chroma: ChromaSubsampling,
    kind: Result<u32, CodecError>,
    decoder: Result<VtDecoder, CodecError>,
)
    requires
        call_ensures(codec_type, (codec,), kind),
        call_ensures(VtDecoder::new, (codec, chroma), decoder),
    ensures
        kind is Err <==> codec is Av1,
        kind is Err ==> kind matches Err(CodecError::Unsupported(_)),
        codec is Hevc ==> kind == Ok::<u32, CodecError>(0x6876_6331),
        codec is H264 ==> kind == Ok::<u32, CodecError>(0x6176_6331),
        decoder is Err <==> codec is Av1,
        decoder matches Ok(d) ==> d.kind() == codec && !d.running() && d.sets().len() == 0
            && !d.refused() && (d.format() is Nv12VideoRange <==> chroma is Yuv420),
{
}

/// Bad data is told of once, and nothing else changes by it.
pub proof fn bad_data_is_told_once(
    first: &mut VtDecoder,
    second: &mut VtDecoder,
    one: bool,
    two: bool,
)
    requires
        call_ensures(VtDecoder::take_bad_data, (first,), one),
        *old(second) == *final(first),
        call_ensures(VtDecoder::take_bad_data, (second,), two),
    ensures
        one == old(first).refused(),
        !two,
        final(first).counts() == old(first).counts(),
        final(first).running() == old(first).running(),
        final(first).sets() == old(first).sets(),
        final(first).format() == old(first).format(),
{
}

/// A burst may be one and a half times the rate for a second, in bytes.
pub proof fn bursts_are_half_as_much_again(kbps: u32, r: i64)
    requires
        call_ensures(burst_bytes, (kbps,), r),
    ensures
        2 * r <= kbps * 375 <= 2 * r + 1,
{
}

/// Only a setting that is needed fails, and it says which one it is and the status.
pub proof fn needed_settings_may_fail(setting: Setting, status: i32, r: Result<(), CodecError>)
    requires
        call_ensures(Setting::answered, (setting, status), r),
    ensures
        r is Err <==> status != 0 && setting.needed(),
        r is Err ==> (r matches Err(CodecError::Property { key, status: s }) && s == status && key@
            == setting.label()),
{
}

/// An encoder works at once and in order, and has the profile of its codec where the better one was
/// not taken.
pub proof fn profiles_follow_the_codec(
    opening: Vec<Setting>,
    config: &EncoderConfig,
    first: Option<Setting>,
    taken: bool,
    r: (ChromaSubsampling, Option<Setting>),
)
    requires
        call_ensures(opening_settings, (), opening),
        call_ensures(first_profile, (config,), first),
        call_ensures(apply_profile, (config, taken), r),
    ensures
        opening@.len() == 2 && opening@[0] == Setting::RealTime(true) && opening@[1]
            == Setting::AllowFrameReordering(false),
        first is Some <==> tries_high_chroma(*config),
        first matches Some(s) ==> s == Setting::ProfileLevel(Profile::HevcMain42210),
        r.0 is Yuv422 <==> tries_high_chroma(*config) && taken,
        r.1 is None <==> r.0 is Yuv422,
        r.0 is Yuv422 || r.0 is Yuv420,
        r.1 matches Some(s) ==> s == (if config.codec is Hevc {
            Setting::ProfileLevel(Profile::HevcMain)
        } else {
            Setting::ProfileLevel(Profile::H264High)
        }),
{
}

/// A rate that was taken is the encoder's rate from then on; one that was not changes nothing. A
/// flush fails with its status.
pub proof fn taken_rates_are_kept(
    encoder: &mut VtEncoder,
    kbps: u32,
    status: i32,
    r: Result<(), CodecError>,
    flushed: Result<(), CodecError>,
)
    requires
        call_ensures(VtEncoder::set_bitrate, (encoder, kbps, status), r),
        call_ensures(VtEncoder::flush, (old(encoder), status), flushed),
    ensures
        r is Ok <==> status == 0,
        r is Ok ==> final(encoder).settings().target_bitrate_kbps == kbps && final(encoder).settings().codec == old(encoder).settings().codec && final(encoder).settings().target_fps
            == old(encoder).settings().target_fps,
        r is Err ==> final(encoder).settings() == old(encoder).settings(),
        final(encoder).asked() == old(encoder).asked(),
        final(encoder).counts() == old(encoder).counts(),
        flushed is Ok <==> status == 0,
        flushed is Err ==> flushed == Err::<(), CodecError>(CodecError::Encode(status)),
{
}

/// A payload goes out as a stream or says why it does not: a mistake in it is told as it is, and
/// missing sets as such.
pub proof fn faults_are_told_apart(
    payload: &[u8],
    codec: Codec,
    sets: &Option<Vec<Vec<u8>>>,
    r: Result<(Vec<u8>, bool), CodecError>,
)
    requires
        call_ensures(to_annexb, (payload, codec, sets), r),
    ensures
        ({
            let due = stream(payload@, codec, set_views(*sets));
            &&& r is Ok <==> due is Ok
            &&& r matches Ok(out) ==> out.0@ == due->Ok_0.0 && out.1 == due->Ok_0.1
            &&& due matches Err(Fault::Bitstream(mistake)) ==> r == Err::<
                (Vec<u8>, bool),
                CodecError,
            >(CodecError::Bitstream(mistake))
            &&& due matches Err(Fault::MissingParameterSets) ==> r == Err::<
                (Vec<u8>, bool),
                CodecError,
            >(CodecError::MissingParameterSets)
            &&& due matches Err(Fault::Unsupported) ==> (r matches Err(CodecError::Unsupported(
                reason,
            )) && reason@ == "AV1 chưa hỗ trợ"@)
        }),
{
}

} // verus!
