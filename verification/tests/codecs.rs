use remote_desktop::codec::annexb::{iter_nalus, push_nalu, BitstreamError, NaluClass};
use remote_desktop::codec::mediafoundation as mf;
use remote_desktop::codec::nalu::classify;
use remote_desktop::codec::videotoolbox as vt;
use remote_desktop::codec::{CodecError, EncodedFrame, EncoderConfig, FrameFormat, Waited};
use remote_desktop::protocol::assembler::FrameAssembler;
use remote_desktop::protocol::control::{ChromaSubsampling, Codec};
use remote_desktop::protocol::video::fragment_frame;
use remote_desktop::protocol::ProtocolError;

const VPS: [u8; 3] = [0x40, 1, 9];
const IDR: [u8; 4] = [0x26, 1, 7, 7];
const TRAIL: [u8; 3] = [0x02, 1, 5];

fn config(codec: Codec, chroma: ChromaSubsampling) -> EncoderConfig {
    EncoderConfig {
        width: 1920,
        height: 1080,
        codec,
        chroma,
        target_bitrate_kbps: 30_000,
        target_fps: 60,
        keyframe_interval_secs: 10,
    }
}

fn prefixed(units: &[&[u8]]) -> Vec<u8> {
    let mut out = Vec::new();
    for unit in units {
        out.extend_from_slice(&(unit.len() as u32).to_be_bytes());
        out.extend_from_slice(unit);
    }
    out
}

fn stream(units: &[&[u8]]) -> Vec<u8> {
    let mut out = Vec::new();
    for unit in units {
        push_nalu(&mut out, unit);
    }
    out
}

#[test]
fn keyframes_come_with_their_sets() {
    let sets = Some(vec![VPS.to_vec()]);
    let (data, keyframe) = vt::to_annexb(&prefixed(&[&IDR]), Codec::Hevc, &sets).unwrap();
    assert!(keyframe);
    assert_eq!(data, stream(&[&VPS, &IDR]));
    let (data, keyframe) = vt::to_annexb(&prefixed(&[&TRAIL]), Codec::Hevc, &sets).unwrap();
    assert!(!keyframe);
    assert_eq!(data, stream(&[&TRAIL]));
    assert!(matches!(
        vt::to_annexb(&prefixed(&[&IDR]), Codec::Hevc, &None),
        Err(CodecError::MissingParameterSets)
    ));
    assert!(matches!(
        vt::to_annexb(&prefixed(&[&IDR]), Codec::Hevc, &Some(Vec::new())),
        Err(CodecError::MissingParameterSets)
    ));
    assert!(matches!(
        vt::to_annexb(&[0, 0], Codec::Hevc, &sets),
        Err(CodecError::Bitstream(BitstreamError::Truncated))
    ));
    assert_eq!(classify(Codec::Hevc, &VPS), NaluClass::ParameterSet);
}

#[test]
fn a_decoder_is_rebuilt_when_the_sets_change() {
    let mut decoder = vt::VtDecoder::new(Codec::Hevc, ChromaSubsampling::Yuv420).unwrap();
    assert_eq!(decoder.frame_format(), FrameFormat::Nv12VideoRange);
    let unit = decoder.decode(&stream(&[&VPS, &IDR]));
    assert!(unit.rebuild);
    assert_eq!(unit.sets, [VPS.to_vec()]);
    assert_eq!(unit.payload, prefixed(&[&IDR]));
    assert!(!decoder.ready(&unit.payload));
    let good = vt::Answer { status: 0, present: true };
    let bad = vt::Answer { status: -7, present: false };
    assert!(matches!(
        decoder.rebuild(unit.sets.clone(), bad, good),
        Err(CodecError::Decode(-7))
    ));
    assert!(matches!(
        decoder.rebuild(unit.sets.clone(), good, bad),
        Err(CodecError::SessionCreate { what: "giải mã", status: -7 })
    ));
    assert!(decoder.decode(&stream(&[&VPS, &IDR])).rebuild);
    decoder.rebuild(unit.sets, good, good).unwrap();
    assert_eq!(decoder.pixel_format(), u32::from_be_bytes(*b"420v"));
    assert!(matches!(
        decoder.conclude(vt::DecodeOutcome::Unmade(-9), 0, 0, 0),
        Err(CodecError::Decode(-9))
    ));
    assert_eq!(decoder.stats().errors, 0);
    assert!(decoder.ready(&unit.payload));
    assert!(!decoder.ready(&[]));
    assert!(!decoder.decode(&stream(&[&VPS, &IDR])).rebuild);
    let picture = vt::DecodeOutcome::Picture { width: 1920, height: 1080 };
    let frame = decoder.conclude(picture, 5, 10, 30).unwrap().unwrap();
    assert_eq!((frame.width, frame.pts_us, frame.decode_us), (1920, 5, 20));
    assert!(decoder.conclude(vt::DecodeOutcome::Nothing(-1), 0, 0, 0).unwrap().is_none());
    assert!(decoder.take_bad_data() && !decoder.take_bad_data());
    assert!(matches!(
        decoder.conclude(vt::DecodeOutcome::Failed(-3), 0, 0, 0),
        Err(CodecError::Decode(-3))
    ));
    let stats = decoder.stats();
    assert_eq!(
        (stats.frames_submitted, stats.frames_emitted, stats.frames_dropped, stats.errors),
        (3, 1, 2, 2)
    );
    let wide = vt::VtDecoder::new(Codec::Hevc, ChromaSubsampling::Yuv444).unwrap();
    assert_eq!(wide.pixel_format(), u32::from_be_bytes(*b"x422"));
    assert!(vt::VtDecoder::new(Codec::Av1, ChromaSubsampling::Yuv420).is_err());
}

#[test]
fn an_encoder_is_set_up() {
    let hevc = config(Codec::Hevc, ChromaSubsampling::Yuv444);
    assert!(vt::first_profile(&hevc).is_some());
    assert_eq!(vt::apply_profile(&hevc, true), (ChromaSubsampling::Yuv422, None));
    assert_eq!(
        vt::apply_profile(&hevc, false),
        (
            ChromaSubsampling::Yuv420,
            Some(vt::Setting::ProfileLevel(vt::Profile::HevcMain))
        )
    );
    let settings = vt::configure(&hevc);
    assert_eq!(settings[0], vt::Setting::AverageBitRate(30_000_000));
    assert_eq!(settings[1], vt::Setting::DataRateLimits(5_625_000));
    assert_eq!(settings[3], vt::Setting::MaxKeyFrameInterval(600));
    assert_eq!(vt::average_bit_rate(3_000_000), i32::MAX);
    assert_eq!(vt::opening_settings().len(), 2);
    assert!(settings[1].answered(-1).is_ok());
    assert!(matches!(
        settings[0].answered(-1),
        Err(CodecError::Property { key: "AverageBitRate", status: -1 })
    ));
    assert!(matches!(
        vt::VtEncoder::new(hevc, -12, false, Ok(ChromaSubsampling::Yuv420), None),
        Err(CodecError::SessionCreate { status: -12, .. })
    ));
    assert!(vt::codec_type(Codec::Av1).is_err());
    assert!(matches!(
        vt::VtEncoder::new(
            config(Codec::Av1, ChromaSubsampling::Yuv420),
            0,
            true,
            Ok(ChromaSubsampling::Yuv420),
            Some(true),
        ),
        Err(CodecError::Unsupported(_))
    ));
    assert!(matches!(
        vt::VtEncoder::new(
            config(Codec::H264, ChromaSubsampling::Yuv420),
            0,
            true,
            Err(CodecError::Property { key: "RealTime", status: -3 }),
            None,
        ),
        Err(CodecError::Property { key: "RealTime", status: -3 })
    ));
    assert!(matches!(
        vt::VtEncoder::new(
            config(Codec::H264, ChromaSubsampling::Yuv420),
            0,
            false,
            Ok(ChromaSubsampling::Yuv420),
            None,
        ),
        Err(CodecError::SessionCreate { status: 0, .. })
    ));
}

#[test]
fn an_encoder_counts_what_it_does() {
    let hevc = config(Codec::Hevc, ChromaSubsampling::Yuv420);
    let mut encoder =
        vt::VtEncoder::new(hevc, 0, true, Ok(ChromaSubsampling::Yuv420), Some(true)).unwrap();
    assert!(encoder.is_hardware());
    encoder.request_keyframe();
    let submission = encoder.submit(100, 1000);
    assert!(submission.force_keyframe);
    encoder.submitted(0).unwrap();
    assert!(!encoder.submit(101, 1000).force_keyframe);
    let sample = vt::Encoded::Sample(
        vt::Block::Data(prefixed(&[&IDR])),
        Some(vec![VPS.to_vec()]),
    );
    let frame = encoder.encoded(submission.info, sample, 1500).unwrap();
    assert!(frame.keyframe);
    assert_eq!((frame.pts_us, frame.encode_us), (100, 500));
    assert!(encoder.encoded(submission.info, vt::Encoded::Dropped, 0).is_none());
    assert!(encoder.encoded(submission.info, vt::Encoded::Failed(-1), 0).is_none());
    assert!(encoder.submitted(-5).is_err());
    let stats = encoder.stats();
    assert_eq!(stats.frames_emitted, 1);
    assert_eq!(stats.bytes_emitted, frame.data.len() as u64);
    encoder.set_bitrate(5_000, 0).unwrap();
    assert_eq!(encoder.config().target_bitrate_kbps, 5_000);
    assert!(encoder.set_bitrate(1, -1).is_err());
    assert!(encoder.flush(0).is_ok());
    assert!(matches!(encoder.flush(-4), Err(CodecError::Encode(-4))));
    assert!(matches!(encoder.next_frame(Waited::TimedOut), Err(CodecError::Timeout)));
    assert!(encoder.try_next_frame(Waited::TimedOut).is_none());
}

#[test]
fn media_foundation_is_asked_what_it_can_do() {
    assert_eq!(mf::decodable(true, true, true), [Codec::Hevc, Codec::H264]);
    assert_eq!(mf::encodable(true, false, true), [Codec::H264]);
    assert!(mf::decodable(false, true, true).is_empty());
    let failed = || Err("hỏng".to_string());
    assert_eq!(mf::activate_first(2, &[failed(), Ok(())], "x").ok(), Some(1));
    assert!(matches!(
        mf::activate_first(0, &[], "bộ mã hoá"),
        Err(CodecError::Unsupported(s)) if s == "máy này không có bộ mã hoá"
    ));
    assert!(matches!(
        mf::activate_first(1, &[failed()], "x"),
        Err(CodecError::System { detail, .. }) if detail == "hỏng"
    ));
    assert_eq!(mf::create_device(&[failed(), Ok(())]).ok(), Some(mf::Driver::Warp));
    assert!(mf::create_device(&[failed(), failed()]).is_err());
    assert_eq!(mf::choose_output(&[None, Some(mf::NV12_SUBTYPE)]).ok(), Some(1));
    assert!(mf::choose_output(&[Some(1)]).is_err());
    assert_eq!(mf::subtype(Codec::Hevc).ok(), Some(u32::from_le_bytes(*b"HEVC")));
    let h264 = || config(Codec::H264, ChromaSubsampling::Yuv420);
    let mut encoder = mf::MfEncoder::new(h264(), Ok(()), Ok(())).unwrap();
    assert_eq!(encoder.set_bitrate(5_000_000, true).ok(), Some(u32::MAX));
    assert!(encoder.set_bitrate(1, false).is_err());
    assert_eq!(encoder.actual_chroma(), ChromaSubsampling::Yuv420);
    assert!(encoder.is_hardware());
    assert_eq!(encoder.config().target_fps, 60);
    encoder.request_keyframe();
    let job = mf::Job { texture: 7, pts: 1230, force_key: true };
    assert_eq!(encoder.submit(7, 123), job);
    assert!(!encoder.submit(7, 124).force_key);
    let coded = || EncodedFrame { data: vec![1], keyframe: true, pts_us: 2, encode_us: 3 };
    assert_eq!(encoder.next_frame(Waited::Frame(coded())).unwrap().pts_us, 2);
    assert!(matches!(encoder.next_frame(Waited::TimedOut), Err(CodecError::Timeout)));
    assert!(matches!(encoder.next_frame(Waited::Closed), Err(CodecError::Closed)));
    assert!(encoder.try_next_frame(Waited::Frame(coded())).is_some());
    assert!(encoder.try_next_frame(Waited::Closed).is_none());
    assert!(encoder.flush(Ok(())).is_ok());
    assert!(matches!(
        encoder.flush(Err("x".into())),
        Err(CodecError::System { what: "đẩy nốt frame còn lại", .. })
    ));
    assert!(encoder.bitrate_set(Ok(())).is_ok());
    assert!(matches!(
        encoder.bitrate_set(Err("x".into())),
        Err(CodecError::System { what: "đổi bitrate", detail }) if detail == "x"
    ));
    let av1 = config(Codec::Av1, ChromaSubsampling::Yuv420);
    assert!(matches!(
        mf::MfEncoder::new(av1, Ok(()), Ok(())),
        Err(CodecError::Unsupported(s)) if s == "AV1 chưa hỗ trợ"
    ));
    assert!(matches!(
        mf::MfEncoder::new(av1, Err(CodecError::Closed), Ok(())),
        Err(CodecError::Closed)
    ));
    assert!(matches!(
        mf::MfEncoder::new(h264(), Ok(()), Err(CodecError::Timeout)),
        Err(CodecError::Timeout)
    ));
}

#[test]
fn media_foundation_decodes_in_two_rounds() {
    let made = |codec, d3d11| mf::MfDecoder::new(codec, 640, 480, Ok(()), Ok(d3d11), Ok(()));
    let mut decoder = made(Codec::H264, 1).unwrap();
    assert!(matches!(
        made(Codec::H264, 0),
        Err(CodecError::Unsupported(s)) if s == "bộ giải mã của máy này không nhận texture D3D11"
    ));
    assert!(matches!(made(Codec::Av1, 1), Err(CodecError::Unsupported(_))));
    assert!(matches!(
        mf::MfDecoder::new(Codec::H264, 1, 1, Ok(()), Ok(1), Err(CodecError::Closed)),
        Err(CodecError::Closed)
    ));
    let nv12 = [Some(mf::NV12_SUBTYPE)];
    assert_eq!(decoder.decode(mf::Fed::Taken).ok(), Some(mf::Next::Negotiate));
    let size = (1920u64 << 32) | 1080;
    assert_eq!(decoder.negotiate_output(&nv12, Some(size), Ok(())).ok(), Some(mf::Next::Pull));
    let Ok(mf::Next::Done(Some(frame))) = decoder.pull(mf::Pulled::Frame, 7, 3) else {
        panic!("phải có hình");
    };
    assert_eq!((frame.width, frame.height, frame.pts_us), (1920, 1080, 7));
    decoder.decode(mf::Fed::Taken).unwrap();
    assert!(matches!(
        decoder.pull(mf::Pulled::NeedInput, 0, 0),
        Ok(mf::Next::Done(None))
    ));
    assert!(decoder.take_bad_data());
    assert_eq!(decoder.stats().errors, 1);
    assert!(matches!(
        decoder.decode(mf::Fed::Refused("đầy".into())),
        Err(CodecError::System { what: "nạp dữ liệu vào bộ giải mã", .. })
    ));
    assert_eq!(decoder.stats().errors, 2);
}

#[test]
fn faults_round_a_decoder_are_not_counted() {
    let mut decoder =
        mf::MfDecoder::new(Codec::Hevc, 640, 480, Ok(()), Ok(1), Ok(())).unwrap();
    assert!(matches!(
        decoder.decode(mf::Fed::Unmade(mf::Fault::InputLock, "x".into())),
        Err(CodecError::System { what: "khoá buffer dữ liệu nén", detail }) if detail == "x"
    ));
    assert_eq!((decoder.stats().frames_submitted, decoder.stats().errors), (1, 0));

    decoder.decode(mf::Fed::Taken).unwrap();
    assert!(matches!(
        decoder.negotiate_output(&[None, Some(1)], Some(9), Ok(())),
        Err(CodecError::Unsupported(s)) if s == "bộ giải mã không chào định dạng NV12 nào"
    ));
    let nv12 = [Some(mf::NV12_SUBTYPE)];
    let size = (1920u64 << 32) | 1080;
    assert!(matches!(
        decoder.negotiate_output(&nv12, Some(size), Err("y".into())),
        Err(CodecError::System { what: "chốt kiểu đầu ra của bộ giải mã", .. })
    ));
    // The size that was read stays.
    assert_eq!(decoder.decode(mf::Fed::Taken).ok(), Some(mf::Next::Negotiate));
    decoder.negotiate_output(&nv12, None, Ok(())).unwrap();
    assert!(matches!(
        decoder.pull(mf::Pulled::Unusable(mf::Fault::FrameNotOnGpu, "z".into()), 0, 0),
        Err(CodecError::System { what: "frame đã giải mã không nằm trên GPU", .. })
    ));
    let stats = decoder.stats();
    assert_eq!((stats.frames_submitted, stats.frames_emitted, stats.errors), (3, 0, 0));
    let Ok(mf::Next::Done(Some(frame))) = decoder.pull(mf::Pulled::Frame, 0, 0) else {
        panic!("phải có hình");
    };
    assert_eq!((frame.width, frame.height), (1920, 1080));
    assert!(matches!(
        decoder.pull(mf::Pulled::Failed("w".into()), 0, 0),
        Err(CodecError::System { what: "lấy frame ra khỏi bộ giải mã", .. })
    ));
    assert_eq!(decoder.stats().errors, 1);

    assert!(matches!(mf::answered(Ok(true)), mf::Pulled::Frame));
    assert!(matches!(mf::answered(Ok(false)), mf::Pulled::NeedInput));
    let failed = |code| mf::answered(Err((code, "v".into())));
    assert!(matches!(failed(0xc00d_6d72), mf::Pulled::NeedInput));
    assert!(matches!(failed(0xc00d_6d61), mf::Pulled::StreamChange));
    assert!(matches!(failed(0x8000_4005), mf::Pulled::Failed(s) if s == "v"));
    assert_eq!(mf::output_buffer(0x100, 7), None);
    assert_eq!(mf::output_buffer(0x201, 7), Some(7));
    assert_eq!(mf::output_buffer(0, 0), Some(1));
    let settings = mf::decoder_settings(Codec::H264, 640, 480).unwrap();
    assert_eq!(settings.frame_size, (640u64 << 32) | 480);
    assert!(settings.low_latency);
}

#[test]
fn an_encoder_is_set_up_for_low_latency() {
    let h264 = config(Codec::H264, ChromaSubsampling::Yuv420);
    assert_eq!(
        mf::configure_codec_api(&h264),
        [
            mf::CodecValue::LowLatency(true),
            mf::CodecValue::ConstantBitRate,
            mf::CodecValue::MeanBitRate(30_000_000),
            mf::CodecValue::GopSize(600),
        ]
    );
    let size = mf::TypeValue::FrameSize((1920u64 << 32) | 1080);
    let rate = mf::TypeValue::FrameRate((60u64 << 32) | 1);
    let square = mf::TypeValue::PixelAspect((1u64 << 32) | 1);
    let subtype = mf::TypeValue::Subtype(mf::H264_SUBTYPE);
    assert_eq!(
        mf::set_output_type(&h264).unwrap(),
        [
            mf::TypeValue::Video,
            subtype,
            mf::TypeValue::AverageBitRate(30_000_000),
            size,
            rate,
            square,
            mf::TypeValue::Progressive,
            mf::TypeValue::HighProfile,
        ]
    );
    let hevc = config(Codec::Hevc, ChromaSubsampling::Yuv420);
    assert_eq!(mf::set_output_type(&hevc).unwrap().len(), 7);
    assert!(mf::set_output_type(&config(Codec::Av1, ChromaSubsampling::Yuv420)).is_err());
    assert_eq!(
        mf::set_input_type(&h264),
        [
            mf::TypeValue::Video,
            mf::TypeValue::Subtype(mf::NV12_SUBTYPE),
            size,
            rate,
            square,
            mf::TypeValue::Progressive,
            mf::TypeValue::SamplesIndependent,
        ]
    );
    assert_eq!(mf::frame_duration(&h264), 166_660);
    let conversion = mf::conversion(1920, 1080, 0);
    assert_eq!((conversion.width, conversion.height, conversion.fps), (1920, 1080, 1));
    assert_eq!((conversion.input_space, conversion.output_space), (0b100101, 0b010111));
}

#[test]
fn media_foundation_encodes_by_invitation() {
    assert_eq!(mf::sequence_header(vec![9, 9]), [0, 0, 0, 1, 9, 9]);
    assert_eq!(mf::sequence_header(vec![0, 0, 1, 9]), [0, 0, 1, 9]);

    let mut pipeline = mf::Pipeline::new(Codec::Hevc, stream(&[&VPS]));
    let job = |pts| mf::Job { texture: 1, pts, force_key: false };
    pipeline.submit(job(10), 100);
    assert!(pipeline.feed().is_none());
    pipeline.invited();
    assert_eq!(pipeline.feed(), Some(job(10)));
    assert!(pipeline.feed().is_none());
    let output = mf::Output { pts: Some(10), clean_point: Some(1), data: stream(&[&IDR]) };
    let frame = pipeline.drain_one(output, 150);
    assert!(frame.keyframe);
    assert_eq!(frame.data, stream(&[&VPS, &IDR]));
    assert_eq!((frame.pts_us, frame.encode_us), (1, 50));
    for pts in 0..5 {
        pipeline.submit(job(pts), 0);
    }
    pipeline.invited();
    assert_eq!(pipeline.feed(), Some(job(1)));
    pipeline.refused(job(1));
    let stats = pipeline.stats();
    assert_eq!((stats.frames_submitted, stats.frames_dropped, stats.errors), (6, 2, 1));

    let mut converter = mf::Nv12Converter::new(1920, 1080);
    assert!(converter.check_size(1920, 1080).is_ok());
    assert!(matches!(
        converter.check_size(1, 2),
        Err(CodecError::Unsupported(s)) if s == "khung hình 1x2 không khớp bộ mã hoá 1920x1080"
    ));
    assert!(converter.input_view(5).is_none());
    converter.keep_view(5);
    assert!(converter.input_view(5).is_some());
    assert_ne!(converter.next_target(), converter.next_target());
}

#[test]
fn codec_errors_in_words() {
    for error in [
        CodecError::Unsupported("x".into()),
        CodecError::SessionCreate { what: "mã hoá", status: -1 },
        CodecError::Property { key: "RealTime", status: -1 },
        CodecError::Encode(-1),
        CodecError::Decode(-1),
        CodecError::Bitstream(BitstreamError::LengthOverflow(9, 4)),
        CodecError::MissingParameterSets,
        CodecError::Closed,
        CodecError::Timeout,
        CodecError::System { what: "x", detail: "y".into() },
    ] {
        assert!(!error.message().is_empty());
    }
    assert_eq!(ProtocolError::TooShort(3).message(), "gói tin quá ngắn: 3 byte");
    assert_eq!(
        ProtocolError::UnknownPacketKind(0xab).message(),
        "loại gói không hợp lệ: 0xab"
    );
    assert_eq!(
        ProtocolError::VersionMismatch { ours: 1, theirs: 2 }.message(),
        "phiên bản giao thức không khớp: ta 1, đối phương 2"
    );
    assert!(matches!(Codec::from_u8(7), Err(ProtocolError::UnknownCodec(7))));
}

#[test]
fn a_frame_survives_the_wire() {
    let encoded: Vec<u8> = (0..5000u32).map(|i| (i * 31) as u8).collect();
    let packets = fragment_frame(&encoded, 7, 2, Codec::Hevc, true, 99);
    assert_eq!(packets.len(), 5);
    assert!(packets.iter().all(|packet| packet.len() <= 1200));
    let mut assembler = FrameAssembler::new(4);
    let mut whole = None;
    for packet in packets.iter().rev() {
        if let Some(frame) = assembler.push(packet).unwrap() {
            whole = Some(frame);
        }
    }
    let frame = whole.expect("đủ gói thì phải ra hình");
    assert_eq!(frame.data, encoded);
    assert_eq!((frame.frame_id, frame.monitor, frame.capture_us), (7, 2, 99));
    assert!(frame.keyframe);
    assert!(assembler.push(&packets[0]).unwrap().is_none());
    assert!(matches!(assembler.push(&[1]), Err(ProtocolError::TooShort(1))));
}

#[test]
fn formats_by_depth_and_chroma() {
    assert_eq!(FrameFormat::Nv12VideoRange.bit_depth(), 8);
    assert_eq!(FrameFormat::P210VideoRange.bit_depth(), 10);
    assert_eq!(FrameFormat::Nv12VideoRange.chroma_shift(), (1, 1));
    assert_eq!(FrameFormat::P210VideoRange.chroma_shift(), (1, 0));
}

#[test]
fn units_come_back_out_of_a_stream() {
    let data = stream(&[&VPS, &IDR, &TRAIL]);
    let units = iter_nalus(&data).collect();
    assert_eq!(units, [&VPS[..], &IDR[..], &TRAIL[..]]);
}
