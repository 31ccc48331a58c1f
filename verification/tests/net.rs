use remote_desktop::input::InputError;
use remote_desktop::net::host::{
    answer, check_hello, choose_codec, host_geometry, joined, left, no_input, note_input_error,
    repeats, serve, signal_loop, unanswered, waiting, welcome, AfterRound, EncodeLoop, Greeting,
    HostWire, Queued, Round, Served, SignalEvent, SignalNext, Stage,
};
use remote_desktop::net::link::{
    finished, latency, Action, Hooks, Link, Preparation, Reception, ACK_EVERY,
};
use remote_desktop::net::viewer::{
    connect_via_rendezvous, connected, destination, hello, no_answer, shown_latency, AfterDecode,
    DecodeLoop, Decoded, Handshake, Route, Search, VideoGate, ViewerWire,
};
use remote_desktop::net::{
    ending, pretty, Address, Context, Ip, LinkStats, NetConfig, NetEvent, PeerAddress, PeerId,
    PipelineInfo, Role, UiCommand,
};
use remote_desktop::protocol::control::{
    ChatMessage, ChromaSubsampling, ClipboardText, Codec, FileChunkAck, FileOffer, HostEvent,
    InputEvent, KeyCode, QualityRequest, Real32, ViewerCommand,
};
use remote_desktop::session::rate::LinkSample;
use remote_desktop::session::transfer::{IdSpace, MAX_PENDING_INCOMING};

fn config(role: Role) -> NetConfig {
    NetConfig {
        role,
        bind: Address { ip: Ip::V4([0, 0, 0, 0]), port: 0 },
        rendezvous: None,
        rendezvous_fingerprint: None,
        peer_fingerprint: None,
        peer: None,
        name: "máy chủ".into(),
        password: "123456".into(),
        target_fps: 60,
        bitrate_kbps: 30_000,
        allow_10bit: true,
        download_dir: "/tmp".into(),
    }
}

fn info() -> PipelineInfo {
    PipelineInfo {
        source: "VA2419".into(),
        width: 1920,
        height: 1080,
        codec: Codec::Hevc,
        chroma: ChromaSubsampling::Yuv422,
        hardware: true,
        target_fps: 50,
    }
}

fn offer(id: u64) -> FileOffer {
    FileOffer { transfer_id: id, name: "a.pdf".into(), size: 10, hash: [0; 32] }
}

const NO_HOOKS: Hooks = Hooks { input: false, keyframe: false, bitrate: false, clock: false };
const ALL_HOOKS: Hooks = Hooks { input: true, keyframe: true, bitrate: true, clock: true };

#[test]
fn codes_are_read_in_groups() {
    assert_eq!(pretty(PeerId { number: 123_456_789 }), "123 456 789");
    assert_eq!(pretty(PeerId { number: 100_000_001 }), "100 000 001");
    assert_eq!(pretty(PeerId { number: 987_065_004 }), "987 065 004");
}

#[test]
fn the_password_goes_as_its_hash() {
    let mut ctx = Context::new(config(Role::Host));
    assert_eq!(ctx.auth(), *blake3::hash(b"123456").as_bytes());
    ctx.config.password = "mật khẩu".into();
    assert_eq!(ctx.auth(), *blake3::hash("mật khẩu".as_bytes()).as_bytes());
}

#[test]
fn keyframes_are_not_asked_for_in_a_row() {
    let mut ctx = Context::new(config(Role::Viewer));
    assert!(!ctx.ask_keyframe(249_999));
    assert!(ctx.ask_keyframe(250_000));
    assert!(!ctx.ask_keyframe(499_999));
    assert!(!ctx.ask_keyframe(5));
    assert!(ctx.ask_keyframe(500_000));
}

#[test]
fn the_end_has_a_reason() {
    assert!(matches!(ending(None), NetEvent::Disconnected(s) if s == "kết thúc"));
    assert!(matches!(ending(Some("đứt".into())), NetEvent::Disconnected(s) if s == "đứt"));
}

#[test]
fn a_greeting_with_the_password_is_let_in() {
    let ctx = Context::new(config(Role::Host));
    let mut guest = Context::new(config(Role::Viewer));
    guest.config.name = "khách".into();
    guest.config.allow_10bit = false;
    let Served::Accepted { greeting, allow_10bit } =
        serve(&ctx, Stage::Hello(hello(&guest, vec![Codec::H264])))
    else {
        panic!("đúng mật khẩu thì phải vào được");
    };
    assert_eq!(greeting.viewer_name, "khách");
    assert_eq!(greeting.codecs, [Codec::H264]);
    assert!(!allow_10bit);

    guest.config.password = "654321".into();
    let Served::Refused { reply, reason } =
        serve(&ctx, Stage::Hello(hello(&guest, Vec::new())))
    else {
        panic!("sai mật khẩu thì phải bị từ chối");
    };
    assert_eq!(reason, "sai mật khẩu phiên");
    assert_eq!(reply, HostEvent::Error { message: reason });
}

#[test]
fn other_greetings_are_refused() {
    let ctx = Context::new(config(Role::Host));
    assert_eq!(
        check_hello(&ctx, ViewerCommand::Disconnect).unwrap_err(),
        "viewer gửi sai thứ tự, mong đợi Hello"
    );
    let old = ViewerCommand::Hello {
        version: 9,
        viewer_name: "x".into(),
        auth: ctx.auth(),
        wants_10bit: true,
        codecs: Vec::new(),
    };
    assert_eq!(
        check_hello(&ctx, old).unwrap_err(),
        "phiên bản giao thức lệch: viewer 9, host 1"
    );
    assert!(matches!(
        serve(&ctx, Stage::Silent),
        Served::Dropped(s) if s == "viewer không chào trong 10s"
    ));
    assert!(matches!(serve(&ctx, Stage::Broken("đứt".into())), Served::Dropped(s) if s == "đứt"));
}

#[test]
fn a_viewer_understands_the_welcome() {
    let greeting =
        Greeting { viewer_name: "v".into(), wants_10bit: true, codecs: vec![Codec::Hevc] };
    let (first, second) =
        welcome(&config(Role::Host), &greeting, &info()).expect("codec chung");
    let mut shake = Handshake::new();
    assert!(shake.step(HostEvent::Pong { sent_us: 1, host_us: 2 }).unwrap().is_none());
    assert!(shake.step(first.clone()).unwrap().is_none());
    let (name, seen) = shake.step(second.clone()).unwrap().expect("đủ để dựng bộ giải mã");
    assert_eq!(name, "máy chủ");
    assert_eq!(
        (seen.source.as_str(), seen.width, seen.height, seen.target_fps),
        ("VA2419", 1920, 1080, 50)
    );
    assert_eq!((seen.codec, seen.chroma), (Codec::Hevc, ChromaSubsampling::Yuv422));

    assert_eq!(
        Handshake::new().step(second).unwrap_err(),
        "host gửi QualityChanged trước Welcome"
    );
    assert_eq!(
        Handshake::new()
            .step(HostEvent::Error { message: "sai mật khẩu phiên".into() })
            .unwrap_err(),
        "sai mật khẩu phiên"
    );
    let HostEvent::Welcome { host_name, monitors, .. } = first else {
        panic!("lời chào đầu");
    };
    let mut other = monitors[0].clone();
    other.id = 4;
    other.name = "phụ".into();
    other.refresh_hz = 0;
    let two = |active_monitor, version| HostEvent::Welcome {
        version,
        host_name: host_name.clone(),
        monitors: vec![monitors[0].clone(), other.clone()],
        active_monitor,
    };
    let quality = || HostEvent::QualityChanged(QualityRequest::default());
    let mut shake = Handshake::new();
    shake.step(two(4, 1)).unwrap();
    let (_, seen) = shake.step(quality()).unwrap().unwrap();
    assert_eq!((seen.source.as_str(), seen.target_fps), ("phụ", 1));
    let mut shake = Handshake::new();
    shake.step(two(9, 1)).unwrap();
    assert_eq!(shake.step(quality()).unwrap().unwrap().1.source, "VA2419");
    assert_eq!(
        Handshake::new().step(two(0, 2)).unwrap_err(),
        "phiên bản giao thức lệch: host 2, viewer 1"
    );
    let none = HostEvent::Welcome {
        version: 1,
        host_name: "x".into(),
        monitors: Vec::new(),
        active_monitor: 0,
    };
    assert_eq!(
        Handshake::new().step(none).unwrap_err(),
        "host không khai màn hình nào"
    );
    assert_eq!(no_answer(), "host không trả lời trong 15s");
}

#[test]
fn a_viewer_knows_where_to_go() {
    let mut ctx = Context::new(config(Role::Viewer));
    assert_eq!(destination(&ctx).unwrap_err(), "chưa cho biết nối tới đâu");
    let code = PeerAddress::Code(PeerId { number: 123_456_789 });
    ctx.config.peer = Some(code);
    assert_eq!(destination(&ctx), Ok(code));
    let events = connected("1.2.3.4:5".into(), "máy".into(), true, info());
    assert!(matches!(events[0], NetEvent::Connected { relayed: true, .. }));
    assert!(matches!(events[1], NetEvent::Info(_)));
}

#[test]
fn ways_to_the_host() {
    let says = |search| match connect_via_rendezvous(search) {
        (Some(NetEvent::Status(text)), route) => (text, route),
        (_, route) => (String::new(), route),
    };
    let (text, route) = says(Search::Direct { address: "1.2.3.4:5".into() });
    assert!(text == "đang nối tới 1.2.3.4:5" && matches!(route, Route::Connect));
    let (text, route) = says(Search::ByCode { server: true });
    assert!(text == "đang hỏi rendezvous server" && matches!(route, Route::AskServer));
    let (_, route) = says(Search::ByCode { server: false });
    assert!(matches!(
        route,
        Route::Fail(s) if s == "cần địa chỉ rendezvous server mới dùng được mã"
    ));
    assert!(matches!(says(Search::Candidates).1, Route::Punch));
    assert!(matches!(says(Search::Punched).1, Route::Connected { relayed: false }));
    let (text, route) = says(Search::TimedOut);
    assert!(text == "không đục được, chuyển sang relay" && matches!(route, Route::AskRelay));
    assert!(matches!(says(Search::Failed("hỏng".into())).1, Route::Fail(s) if s == "hỏng"));
    assert!(matches!(says(Search::Relayed).1, Route::Connected { relayed: true }));
}

#[test]
fn gaps_ask_for_a_keyframe() {
    let mut ctx = Context::new(config(Role::Viewer));
    let mut gate = VideoGate::new();
    let now = 1_000_000;
    assert_eq!(gate.arrived(&mut ctx, u32::MAX, false, Queued::Sent, now), Ok(false));
    assert_eq!(gate.arrived(&mut ctx, 0, false, Queued::Sent, now), Ok(false));
    assert_eq!(gate.arrived(&mut ctx, 1, false, Queued::Full, now), Ok(false));
    assert_eq!(gate.arrived(&mut ctx, 2, false, Queued::Sent, now), Ok(true));
    assert_eq!(gate.arrived(&mut ctx, 4, false, Queued::Sent, now + 1), Ok(false));
    assert_eq!(gate.arrived(&mut ctx, 9, true, Queued::Sent, now * 2), Ok(false));
    assert_eq!(
        gate.arrived(&mut ctx, 10, false, Queued::Closed, now),
        Err("luồng giải mã đã dừng".to_string())
    );
}

#[test]
fn decoding_stops_after_many_failures() {
    let mut ctx = Context::new(config(Role::Viewer));
    let mut work = DecodeLoop::new();
    for _ in 0..59 {
        assert!(matches!(
            work.after(&mut ctx, Decoded::Failed("hỏng".into()), 0),
            AfterDecode::Wait
        ));
    }
    assert!(matches!(work.after(&mut ctx, Decoded::Picture, 0), AfterDecode::Show));
    assert!(matches!(
        work.after(&mut ctx, Decoded::Nothing { refused: true }, 250_000),
        AfterDecode::AskKeyframe
    ));
    assert!(matches!(
        work.after(&mut ctx, Decoded::Nothing { refused: true }, 250_001),
        AfterDecode::Wait
    ));
    assert!(matches!(
        work.after(&mut ctx, Decoded::Nothing { refused: false }, 900_000),
        AfterDecode::Wait
    ));
    for _ in 0..59 {
        work.after(&mut ctx, Decoded::Failed("hỏng".into()), 0);
    }
    assert!(matches!(
        work.after(&mut ctx, Decoded::Failed("hỏng".into()), 0),
        AfterDecode::Stop(NetEvent::Status(s)) if s == "dừng giải mã: hỏng"
    ));
    assert_eq!(shown_latency(Some(-5), 7), 0);
    assert_eq!(shown_latency(Some(5), 7), 5);
    assert_eq!(shown_latency(Some((1 << 32) + 3), 7), 3);
    assert_eq!(shown_latency(None, 7), 7);
}

#[test]
fn the_number_in_the_bar_is_a_ceiling() {
    let sample = |n: u64, lost: u64| LinkSample {
        rtt_ns: 10_000_000,
        lost_packets: lost,
        sent_packets: n * 1_000,
    };
    let mut work = EncodeLoop::new(9_000);
    assert_eq!(work.kbps(), 8_000);
    assert_eq!(work.wishes(true, 0, Some(sample(1, 0))), (true, None));
    assert_eq!(work.wishes(false, 0, Some(sample(2, 0))), (false, Some(9_000)));
    assert_eq!(work.wishes(false, 0, Some(sample(3, 0))), (false, None));
    assert_eq!(work.wishes(false, 20_000, None), (false, None));
    assert_eq!(work.wishes(false, 0, Some(sample(4, 0))), (false, Some(11_700)));
    assert_eq!(work.wishes(false, 4_000, None), (false, Some(4_000)));
    assert_eq!(work.wishes(false, 0, Some(sample(5, 100))), (false, Some(3_000)));
    assert_eq!(work.wishes(false, 2_000, Some(sample(6, 100))), (false, Some(2_000)));
    assert_eq!(work.kbps(), 2_000);
}

#[test]
fn two_machines_agree_on_a_codec() {
    let all = [Codec::Hevc, Codec::H264];
    assert_eq!(choose_codec(&all, &[Codec::H264]), Some(Codec::H264));
    assert_eq!(choose_codec(&all, &[Codec::Av1, Codec::H264, Codec::Hevc]), Some(Codec::H264));
    assert_eq!(choose_codec(&[Codec::H264], &all), Some(Codec::H264));
    assert_eq!(choose_codec(&[Codec::Hevc], &[Codec::H264]), None);
    assert_eq!(choose_codec(&all, &[]), None);
    let greeting = |codecs| Greeting { viewer_name: "v".into(), wants_10bit: false, codecs };
    let config = config(Role::Host);
    assert!(welcome(&config, &greeting(vec![Codec::H264]), &info()).is_none());
    assert!(welcome(&config, &greeting(vec![Codec::H264, Codec::Hevc]), &info()).is_some());
}

#[test]
fn encoding_stops_after_many_failures() {
    let mut work = EncodeLoop::new(30_000);
    for _ in 0..29 {
        assert_eq!(work.after(Round::Failed("hỏng".into())).0, AfterRound::GoOn);
    }
    assert_eq!(work.after(Round::Nothing).0, AfterRound::GoOn);
    assert_eq!(work.after(Round::Frame(Queued::Full)).0, AfterRound::GoOn);
    for _ in 0..29 {
        assert_eq!(work.after(Round::Failed("hỏng".into())).0, AfterRound::GoOn);
    }
    for _ in 0..4 {
        let (next, said) = work.after(Round::Failed("hỏng".into()));
        assert!(next == AfterRound::Rebuild && said.is_none());
        for _ in 0..29 {
            assert_eq!(work.after(Round::Failed("hỏng".into())).0, AfterRound::GoOn);
        }
    }
    assert_eq!(work.after(Round::Failed("hỏng".into())).0, AfterRound::Rebuild);
    let (next, said) = work.after(Round::Dead("không dựng lại được".into()));
    assert_eq!(next, AfterRound::Stop);
    assert!(matches!(
        said,
        Some(NetEvent::Status(s)) if s == "dừng chụp màn hình: không dựng lại được"
    ));
    let mut work = EncodeLoop::new(30_000);
    assert_eq!(work.after(Round::Frame(Queued::Closed)).0, AfterRound::Stop);
    assert_eq!(work.after(Round::Frame(Queued::Sent)).0, AfterRound::GoOn);
    assert!(!repeats(None) && !repeats(Some(199)) && repeats(Some(200)));
    assert_eq!(host_geometry(Ok((10, 20)), 1, 2), (10, 20));
    assert_eq!(host_geometry(Err(InputError::PermissionDenied), 1, 2), (1, 2));
    assert!(matches!(
        no_input(&InputError::Platform("x".into())),
        NetEvent::Status(s) if s == "không bơm được input: không tạo được sự kiện: x"
    ));
    assert!(note_input_error(0).1 && note_input_error(2).1 && !note_input_error(3).1);
    assert_eq!(note_input_error(1_000).0, 1_001);
    assert!(!note_input_error(1_000).1);
}

#[test]
fn a_host_says_what_it_does() {
    assert_eq!(waiting("0.0.0.0:47823", "ab12"), "đang chờ ở 0.0.0.0:47823 — vân tay ab12");
    assert_eq!(joined("1.2.3.4:5", false), "viewer 1.2.3.4:5 đã nối");
    assert_eq!(joined("1.2.3.4:5", true), "viewer 1.2.3.4:5 đã nối (qua relay)");
    let (events, on) = left(None, false);
    assert!(on && matches!(events[1], NetEvent::PeerLeft));
    assert!(matches!(&events[0], NetEvent::Status(s) if s == "viewer đã ngắt, quay lại chờ"));
    let (events, on) = left(Some("đứt".into()), true);
    assert!(!on && matches!(&events[0], NetEvent::Status(s) if s == "phiên kết thúc: đứt"));
    assert!(matches!(answer(true), (NetEvent::Status(_), true)));
    assert!(matches!(
        unanswered("x"),
        NetEvent::Status(s) if s == "không nối được với viewer: x"
    ));
}

#[test]
fn a_host_keeps_its_code() {
    let (events, next) = signal_loop(SignalEvent::Registered(PeerId { number: 123_456_789 }));
    assert_eq!(next, SignalNext::Listen);
    assert!(matches!(events[0], NetEvent::Code(_)));
    assert!(matches!(&events[1], NetEvent::Status(s) if s == "mã của máy này: 123 456 789"));
    let said = |event| match signal_loop(event) {
        (events, next) => match events.first() {
            Some(NetEvent::Status(text)) => (text.clone(), next),
            _ => (String::new(), next),
        },
    };
    assert_eq!(
        said(SignalEvent::RegisterFailed("x".into())),
        ("không đăng ký được với rendezvous: x".to_string(), SignalNext::Pause)
    );
    assert_eq!(
        said(SignalEvent::Lost("x".into())),
        ("mất kết nối tới rendezvous: x".to_string(), SignalNext::Pause)
    );
    assert_eq!(
        said(SignalEvent::PingFailed("x".into())),
        ("rendezvous không đáp: x".to_string(), SignalNext::Pause)
    );
    assert_eq!(said(SignalEvent::Called { taken: true }).1, SignalNext::Listen);
    assert_eq!(said(SignalEvent::Called { taken: false }).1, SignalNext::End);
    assert_eq!(said(SignalEvent::Quiet).1, SignalNext::Ping);
    assert_eq!(said(SignalEvent::Pinged).1, SignalNext::Listen);
    assert_eq!(said(SignalEvent::Paused { stopping: false }).1, SignalNext::Retry);
    assert_eq!(said(SignalEvent::Paused { stopping: true }).1, SignalNext::End);
}

#[test]
fn files_leave_after_they_were_taken() {
    let mut link = Link::<HostWire>::new(NO_HOOKS);
    let (actions, preparation) = link.command(UiCommand::SendFile("/tmp/a.pdf".into()));
    assert!(actions.is_empty());
    let preparation = preparation.expect("phải chuẩn bị lời mời");
    let id = preparation.id;
    assert!(IdSpace::Host.owns(id));
    assert!(link.read(ViewerCommand::FileAccept { transfer_id: id }, 0).is_empty());
    let actions = link.prepared(preparation, Ok(offer(id)));
    assert!(matches!(actions[0], Action::Emit(NetEvent::OutgoingOffer(_))));
    assert!(matches!(actions[1], Action::Send(HostEvent::FileOffer(_))));
    let actions = link.read(ViewerCommand::FileAccept { transfer_id: id }, 0);
    assert!(matches!(actions[0], Action::Emit(NetEvent::TransferAccepted(_))));
    assert!(matches!(&actions[1], Action::SendFile { path, .. } if path == "/tmp/a.pdf"));
    assert!(link.read(ViewerCommand::FileAccept { transfer_id: id }, 0).is_empty());

    let (_, second) = link.command(UiCommand::SendFile("/tmp/b".into()));
    assert_ne!(second.as_ref().map(|p| p.id), Some(id));
    let actions = link.prepared(second.unwrap(), Err("không có".into()));
    assert!(matches!(
        &actions[0],
        Action::Emit(NetEvent::TransferFailed { reason, .. })
            if reason == "không đọc được file: không có"
    ));
    let failed = Preparation { id, path: "/tmp/a".into() };
    link.prepared(failed, Ok(offer(id)));
    let actions = link.read(ViewerCommand::FileReject { transfer_id: id }, 0);
    assert!(matches!(actions[0], Action::Emit(NetEvent::TransferRejected(_))));
    assert!(link.read(ViewerCommand::FileAccept { transfer_id: id }, 0).is_empty());
}

#[test]
fn files_come_in_after_they_were_taken() {
    let mut link = Link::<HostWire>::new(NO_HOOKS);
    let id = IdSpace::Viewer.make_id(1);
    assert!(link.read(ViewerCommand::FileOffer(offer(IdSpace::Host.make_id(1))), 0).is_empty());
    let actions = link.read(ViewerCommand::FileOffer(offer(id)), 0);
    assert!(matches!(actions[0], Action::Emit(NetEvent::IncomingOffer(_))));
    assert!(link.stream(id).is_none());
    let (actions, _) = link.command(UiCommand::AcceptFile(id));
    assert!(matches!(actions[0], Action::Send(HostEvent::FileAccept { .. })));
    assert_eq!(link.stream(id), Some(offer(id)));
    assert!(link.stream(id).is_none());
    assert!(link.command(UiCommand::AcceptFile(id)).0.is_empty());

    for n in 0..MAX_PENDING_INCOMING as u64 {
        link.read(ViewerCommand::FileOffer(offer(IdSpace::Viewer.make_id(10 + n))), 0);
    }
    let actions = link.read(ViewerCommand::FileOffer(offer(IdSpace::Viewer.make_id(99))), 0);
    assert!(matches!(actions[0], Action::Send(HostEvent::FileReject { .. })));
    let (actions, _) = link.command(UiCommand::RejectFile(IdSpace::Viewer.make_id(10)));
    assert!(matches!(actions[0], Action::Send(HostEvent::FileReject { .. })));
    let actions = link.read(ViewerCommand::FileOffer(offer(IdSpace::Viewer.make_id(99))), 0);
    assert!(matches!(actions[0], Action::Emit(NetEvent::IncomingOffer(_))));
}

#[test]
fn messages_reach_who_is_there_for_them() {
    let mut link = Link::<HostWire>::new(ALL_HOOKS);
    let key = InputEvent::Key { code: KeyCode::A, pressed: true };
    let actions = link.read(ViewerCommand::Input(key.clone()), 0);
    assert!(matches!(&actions[0], Action::Inject(event) if *event == key));
    let actions = link.read(ViewerCommand::RequestKeyframe { monitor: 0 }, 0);
    assert!(matches!(actions[0], Action::Keyframe));
    let mut wish = QualityRequest::default();
    wish.target_bitrate_kbps = 900;
    let actions = link.read(ViewerCommand::SetQuality(wish), 0);
    assert!(matches!(actions[0], Action::Bitrate(900)));
    let actions = link.read(ViewerCommand::Ping { sent_us: 5 }, 9);
    assert!(matches!(
        actions[0],
        Action::Send(HostEvent::Pong { sent_us: 5, host_us: 9 })
    ));
    let ack = FileChunkAck { transfer_id: 1, received_bytes: 7 };
    let actions = link.read(ViewerCommand::FileChunkAck(ack), 0);
    assert!(matches!(
        actions[0],
        Action::Emit(NetEvent::TransferProgress { id: 1, done: 7 })
    ));
    let text = ClipboardText { text: "chép".into() };
    let actions = link.read(ViewerCommand::Clipboard(text), 0);
    assert!(matches!(&actions[0], Action::Emit(NetEvent::Clipboard(s)) if s == "chép"));
    assert!(matches!(link.read(ViewerCommand::Disconnect, 0)[0], Action::Close));

    let mut deaf = Link::<HostWire>::new(NO_HOOKS);
    assert!(deaf.read(ViewerCommand::Input(key), 0).is_empty());
    assert!(deaf.read(ViewerCommand::RequestKeyframe { monitor: 0 }, 0).is_empty());

    let mut viewer = Link::<ViewerWire>::new(ALL_HOOKS);
    let actions = viewer.read(HostEvent::Pong { sent_us: 1, host_us: 2 }, 3);
    assert!(matches!(
        actions[0],
        Action::Clock { sent_us: 1, host_us: 2, now_us: 3 }
    ));
    let actions = viewer.read(HostEvent::Error { message: "đầy".into() }, 0);
    assert!(matches!(&actions[0], Action::Fail(s) if s == "đầy"));
}

#[test]
fn commands_become_messages() {
    let mut viewer = Link::<ViewerWire>::new(ALL_HOOKS);
    let keys = vec![
        InputEvent::Key { code: KeyCode::A, pressed: true },
        InputEvent::Key { code: KeyCode::A, pressed: false },
    ];
    let (actions, _) = viewer.command(UiCommand::Input(keys.clone()));
    assert_eq!(actions.len(), 2);
    assert!(matches!(
        &actions[1],
        Action::Send(ViewerCommand::Input(event)) if *event == keys[1]
    ));
    let (actions, _) = viewer.command(UiCommand::SetBitrate(900));
    assert!(matches!(
        &actions[0],
        Action::Send(ViewerCommand::SetQuality(q)) if q.target_bitrate_kbps == 900
    ));
    let (actions, _) = viewer.command(UiCommand::RequestKeyframe);
    assert!(matches!(actions[0], Action::Send(ViewerCommand::RequestKeyframe { .. })));
    let message = ChatMessage { from: "a".into(), body: "b".into(), sent_at_ms: 3 };
    let (actions, _) = viewer.command(UiCommand::Chat(message));
    assert!(matches!(actions[0], Action::Send(ViewerCommand::Chat(_))));
    let (actions, _) = viewer.command(UiCommand::Clipboard("x".into()));
    assert!(matches!(actions[0], Action::Send(ViewerCommand::Clipboard(_))));

    let mut host = Link::<HostWire>::new(NO_HOOKS);
    assert!(host.command(UiCommand::Input(keys)).0.is_empty());
    assert!(host.command(UiCommand::RequestKeyframe).0.is_empty());
    assert!(host.command(UiCommand::SetBitrate(9)).0.is_empty());
}

#[test]
fn heartbeats_measure_from_one_end() {
    let stats = LinkStats {
        rtt_us: 1,
        loss_ratio: Real32 { bits: 0 },
        current_mtu: 1,
        bytes_sent: 1,
        bytes_received: 1,
    };
    assert_eq!(Link::<HostWire>::new(NO_HOOKS).heartbeat(stats, 7).len(), 1);
    let actions = Link::<ViewerWire>::new(ALL_HOOKS).heartbeat(stats, 7);
    assert!(matches!(actions[0], Action::Emit(NetEvent::Link(_))));
    assert!(matches!(actions[1], Action::Send(ViewerCommand::Ping { sent_us: 7 })));
    assert!(matches!(latency(Some(9)), Some(NetEvent::Latency(4))));
    assert!(latency(None).is_none());
}

#[test]
fn progress_is_acknowledged_now_and_then() {
    let mut file = Reception { id: 3, size: 2 * ACK_EVERY + 5, acked: 0 };
    assert_eq!(file.progress::<HostWire>(ACK_EVERY - 1).len(), 1);
    assert_eq!(file.progress::<HostWire>(ACK_EVERY).len(), 2);
    assert_eq!(file.progress::<HostWire>(ACK_EVERY + 1).len(), 1);
    let actions = file.progress::<HostWire>(2 * ACK_EVERY + 5);
    assert!(matches!(
        actions[1],
        Action::Send(HostEvent::FileChunkAck(FileChunkAck { transfer_id: 3, received_bytes }))
            if received_bytes == 2 * ACK_EVERY + 5
    ));
    assert!(matches!(
        finished(3, Ok("/tmp/a".into())),
        NetEvent::TransferDone { id: 3, .. }
    ));
    assert!(matches!(
        finished(3, Err("đứt".into())),
        NetEvent::TransferFailed { id: 3, reason } if reason == "đứt"
    ));
}
