use remote_desktop::app::args::Args;
use remote_desktop::app::form::{Form, Lookup};
use remote_desktop::app::local::{Counters, LocalState};
use remote_desktop::app::os::{Clipboard, FilePicker, Picked};
use remote_desktop::app::probe::{probe, Findings, Trial};
use remote_desktop::app::session::{
    ago, draw_chat, draw_transfers, pace, speed_text, ChatEntry, Click, Direction, Footer, Outcome,
    SessionState, TransferState, Transfers, Who,
};
use remote_desktop::app::start::{Act, Field, RdApp, Screen, Widget, Wish};
use remote_desktop::app::tailscale::{Job, Peer, State, Status, Watcher};
use remote_desktop::app::ui::{bytes, draw_hud, HudNumbers, Item, Report, Tone};
use remote_desktop::capture::{CaptureError, DisplayInfo};
use remote_desktop::net::{
    Address, Ip, LinkStats, NetConfig, NetEvent, PeerId, PipelineInfo, Role, UiCommand,
};
use remote_desktop::protocol::control::{
    ChatMessage, ChromaSubsampling, Codec, FileOffer, InputEvent, KeyCode, Real32,
};

fn config(role: Role) -> NetConfig {
    NetConfig {
        role,
        bind: Address { ip: Ip::V4([0, 0, 0, 0]), port: 1 },
        rendezvous: None,
        rendezvous_fingerprint: None,
        peer_fingerprint: None,
        peer: None,
        name: "tôi".into(),
        password: "123456".into(),
        target_fps: 60,
        bitrate_kbps: 30_000,
        allow_10bit: true,
        download_dir: "/tmp".into(),
    }
}

fn offer(id: u64, name: &str, size: u64) -> FileOffer {
    FileOffer { transfer_id: id, name: name.into(), size, hash: [0; 32] }
}

fn info() -> PipelineInfo {
    PipelineInfo {
        source: "Màn hình".into(),
        width: 1920,
        height: 1080,
        codec: Codec::Hevc,
        chroma: ChromaSubsampling::Yuv420,
        hardware: true,
        target_fps: 60,
    }
}

fn link() -> LinkStats {
    LinkStats {
        rtt_us: 12_000,
        loss_ratio: Real32 { bits: 0 },
        current_mtu: 1400,
        bytes_sent: 2048,
        bytes_received: 10,
    }
}

fn texts(items: &[Item]) -> Vec<(String, Tone)> {
    items
        .iter()
        .map(|item| match item {
            Item::Text { text, tone } => (text.clone(), *tone),
            Item::Separator => ("—".to_string(), Tone::Plain),
        })
        .collect()
}

fn words(state: &SessionState) -> Vec<String> {
    state.chat().entries().iter().map(|entry| entry.body.clone()).collect()
}

#[test]
fn sizes_read_like_the_usual_notation() {
    let usual = |value: u64| {
        const UNITS: [&str; 4] = ["B", "KB", "MB", "GB"];
        let mut size = value as f64;
        let mut unit = 0;
        while size >= 1024.0 && unit < UNITS.len() - 1 {
            size /= 1024.0;
            unit += 1;
        }
        if unit == 0 {
            format!("{size:.0} {}", UNITS[unit])
        } else {
            format!("{size:.1} {}", UNITS[unit])
        }
    };
    assert_eq!(bytes(0), "0 B");
    assert_eq!(bytes(1023), "1023 B");
    assert_eq!(bytes(1536), "1.5 KB");
    assert_eq!(bytes(10 << 20), "10.0 MB");
    let mut value: u64 = 1;
    for step in 0..4000u64 {
        assert_eq!(bytes(value), usual(value), "{value}");
        value = value.wrapping_mul(6364136223846793005).wrapping_add(step) >> (step % 60);
    }
    for value in [1075, 1076, 1077, 1126, 1127, 1178, 1 << 40, u64::MAX, u64::MAX - 1024] {
        assert_eq!(bytes(value), usual(value), "{value}");
    }
}

#[test]
fn the_overlay_shows_video_and_times() {
    let numbers = |encode: Option<&str>, network: Option<&str>| HudNumbers {
        fps: "59.9".into(),
        mbps: "21.5".into(),
        keyframes: 3,
        p50_ms: "10.1".into(),
        p99_ms: "12.0".into(),
        pace: Tone::Good,
        encode_ms: encode.map(String::from),
        decode_ms: "2.5".into(),
        network_ms: network.map(String::from),
    };
    let info = info();
    let shown = texts(&draw_hud(Some(&info), &numbers(None, Some("4.0")), Vec::new()));
    assert_eq!(
        shown,
        vec![
            ("1920x1080  Hevc Yuv420".to_string(), Tone::Strong),
            ("nguồn: Màn hình".to_string(), Tone::Small),
            ("—".to_string(), Tone::Plain),
            ("59.9/60 fps   21.5 Mbps   3 kf".to_string(), Tone::Plain),
            ("trễ  p50 10.1 ms   p99 12.0 ms".to_string(), Tone::Good),
            ("  mã hoá    —      giải mã 2.5 ms".to_string(), Tone::Small),
            ("  mạng một chiều 4.0 ms".to_string(), Tone::Small),
        ]
    );
    let own = vec![Item::Text { text: "x".into(), tone: Tone::Warn }];
    let shown = texts(&draw_hud(None, &numbers(Some("1.0"), None), own));
    assert_eq!(shown[0].0, "chưa có video");
    assert_eq!(shown[2].0, "  mã hoá 1.0 ms   giải mã 2.5 ms");
    assert_eq!(shown[3].0, "—");
    assert_eq!(shown[4], ("x".to_string(), Tone::Warn));
}

#[test]
fn figures_go_to_the_log_every_two_seconds() {
    let mut report = Report { last_ms: 1000 };
    assert!(!report.due(2999));
    assert!(report.due(3000));
    assert!(!report.due(3000));
    assert!(!report.due(10));
}

#[test]
fn a_session_starts_without_control() {
    let state = SessionState::start(&config(Role::Viewer), &None, &None);
    assert!(!state.control_on());
    assert!(state.show_hud() && state.show_panel());
    assert_eq!(state.waiting().as_deref(), Some("đang khởi động"));
    let bar = state.draw();
    assert_eq!((bar.role, bar.state, bar.tone), ("Đang xem máy khác", "đang chờ", Tone::Warn));
    assert_eq!(bar.panel, "Chat/Tệp");
    assert_eq!(bar.control, Some("Điều khiển: tắt (F9)"));
    let host = SessionState::start(&config(Role::Host), &None, &None).draw();
    assert_eq!((host.role, host.control), ("Đang chia sẻ máy này", None));
}

#[test]
fn events_change_the_page() {
    let mut state = SessionState::start(&config(Role::Viewer), &None, &None);
    state.pump(
        vec![
            NetEvent::Status("đang nối".into()),
            NetEvent::Code(PeerId { number: 123_456_789 }),
            NetEvent::IncomingOffer(offer(5, "a.txt", 10)),
            NetEvent::Connected { peer: "1.2.3.4:5".into(), name: "máy".into(), relayed: true },
            NetEvent::Info(info()),
            NetEvent::OutgoingOffer(offer(6, "b.txt", 20)),
            NetEvent::TransferAccepted(6),
            NetEvent::TransferProgress { id: 6, done: 7 },
            NetEvent::Link(link()),
            NetEvent::Latency(900),
            NetEvent::Clipboard("bỏ qua".into()),
        ],
        true,
    );
    assert_eq!(
        words(&state),
        vec![
            "đầu kia muốn gửi a.txt",
            "máy (1.2.3.4:5) đã nối qua relay",
            "đang gửi b.txt",
        ]
    );
    assert_eq!(state.unread(), 1);
    assert!(state.pictured());
    assert_eq!(state.latency_us(), Some(900));
    assert_eq!(state.copied_code().as_deref(), Some("123456789"));
    assert_eq!(state.draw().peer.as_deref(), Some("máy"));
    assert_eq!(state.draw().panel, "Chat/Tệp (1)");
    assert_eq!(state.waiting(), None);
    let rows = state.transfers().list();
    assert_eq!((rows[0].id, rows[0].direction), (5, Direction::In));
    assert_eq!((rows[1].done, &rows[1].state), (7, &TransferState::Active));

    state.pump(
        vec![
            NetEvent::TransferDone { id: 6, path: "/tmp/b.txt".into() },
            NetEvent::TransferFailed { id: 5, reason: "đứt".into() },
            NetEvent::PeerLeft,
            NetEvent::Disconnected("hết".into()),
        ],
        false,
    );
    assert_eq!(
        words(&state)[3..],
        ["xong: /tmp/b.txt", "tệp lỗi: đứt", "đầu kia đã ngắt", "phiên kết thúc: hết"]
    );
    assert!(!state.pictured() && state.info().is_none() && state.latency_us().is_none());
    let rows = state.transfers().list();
    assert_eq!(rows[1].state, TransferState::Done(Some("/tmp/b.txt".into())));
    assert_eq!(rows[1].done, 20);
    assert_eq!(rows[0].state, TransferState::Failed("đứt".into()));
    assert_eq!(state.draw().state, "đã dừng");
    assert!(!state.control_on());
}

#[test]
fn a_hidden_panel_counts_what_is_said() {
    let mut state = SessionState::start(&config(Role::Host), &None, &None);
    let say = || {
        vec![NetEvent::Chat(ChatMessage { from: "kia".into(), body: "ơi".into(), sent_at_ms: 4 })]
    };
    state.pump(say(), false);
    assert_eq!(state.unread(), 0);
    state.hotkeys(false, false, true, true);
    assert!(!state.show_panel() && !state.control_on());
    state.pump(say(), false);
    state.pump(say(), false);
    assert_eq!(state.unread(), 2);
    state.hotkeys(true, true, true, true);
    assert!(!state.show_panel());
    assert_eq!(state.click(Click::Panel).0, Outcome::Continue);
    assert_eq!(state.unread(), 0);
    let entry = &state.chat().entries()[0];
    assert_eq!((entry.who, entry.name.as_str(), entry.at_ms), (Who::Peer, "kia", 4));
}

#[test]
fn clicks_reach_the_network() {
    let mut state = SessionState::start(&config(Role::Viewer), &None, &None);
    assert_eq!(state.click(Click::Leave).0, Outcome::Leave);
    assert!(matches!(state.click(Click::Keyframe).1, Some(UiCommand::RequestKeyframe)));
    assert!(matches!(state.click(Click::Bitrate(5)).1, Some(UiCommand::SetBitrate(1_000))));
    assert!(matches!(
        state.click(Click::Bitrate(5_000)).1,
        Some(UiCommand::SetBitrate(5_000))
    ));
    assert_eq!(state.bitrate_kbps(), 5_000);
    let gauge = state.draw().kbps.expect("máy xem có ô kbps");
    assert_eq!((gauge.value, gauge.low, gauge.high), (5_000, 1_000, 200_000));
    assert!(SessionState::start(&config(Role::Host), &None, &None).draw().kbps.is_none());
    state.pump(
        vec![
            NetEvent::IncomingOffer(offer(1, "a", 0)),
            NetEvent::IncomingOffer(offer(2, "b", 4)),
        ],
        false,
    );
    assert!(matches!(state.click(Click::Accept(1)).1, Some(UiCommand::AcceptFile(1))));
    assert!(matches!(state.click(Click::Reject(2)).1, Some(UiCommand::RejectFile(2))));
    let rows = state.transfers().list();
    assert_eq!(rows[0].state, TransferState::Active);
    assert_eq!(rows[1].state, TransferState::Rejected);
    assert_eq!(rows[0].ratio(), (1, 1));
    state.click(Click::Control);
    assert!(state.control_on());
}

#[test]
fn drafts_are_sent_once() {
    let mut state = SessionState::start(&config(Role::Viewer), &None, &None);
    let mut draft = "  chào ".to_string();
    let Some(UiCommand::Chat(message)) = state.send_chat(&mut draft) else {
        panic!("phải gửi");
    };
    assert_eq!((message.from.as_str(), message.body.as_str()), ("tôi", "chào"));
    assert!(message.sent_at_ms > 0);
    assert_eq!(draft, "");
    assert!(state.send_chat(&mut draft).is_none());
    assert_eq!(words(&state), ["chào"]);
    assert_eq!(state.chat().entries()[0].who, Who::Me);

    let mut path = " /tmp/a b ".to_string();
    let Some(UiCommand::SendFile(sent)) = state.send_file(&mut path) else {
        panic!("phải gửi");
    };
    assert_eq!((sent.as_str(), path.as_str()), ("/tmp/a b", ""));
    let mut blank = " \t".to_string();
    assert!(state.send_file(&mut blank).is_none());
    assert_eq!(blank, " \t");
    assert_eq!(state.take_dropped_files(vec!["x".into(), "y".into()]).len(), 2);
}

#[test]
fn losing_the_focus_releases_everything() {
    let mut state = SessionState::start(&config(Role::Viewer), &None, &None);
    let key = || vec![InputEvent::Key { code: KeyCode::A, pressed: true }];
    assert!(state.steer(key(), InputEvent::ReleaseAll, false).is_empty());
    state.hotkeys(false, false, false, true);
    assert!(state.control_on());
    assert_eq!(state.steer(key(), InputEvent::ReleaseAll, true).len(), 1);
    assert_eq!(state.steer(Vec::new(), InputEvent::ReleaseAll, true).len(), 0);
    let sent = state.steer(key(), InputEvent::ReleaseAll, false);
    assert_eq!(sent.len(), 2);
    let UiCommand::Input(last) = &sent[1] else {
        panic!("phải nhả phím");
    };
    assert_eq!(last, &vec![InputEvent::ReleaseAll]);
    assert!(!state.control_on());
}

#[test]
fn a_host_shows_how_to_reach_it() {
    let mut state = SessionState::start(&config(Role::Host), &None, &None);
    let card = texts(&state.draw_host_card("", ""));
    assert_eq!(card[1].0, "Chưa có mã — chưa nối được rendezvous server.");
    assert_eq!(card.len(), 6);
    state.pump(
        vec![
            NetEvent::Code(PeerId { number: 123_456_789 }),
            NetEvent::Link(link()),
            NetEvent::Info(info()),
        ],
        false,
    );
    let card = texts(&state.draw_host_card("123 456 789", "12.0"));
    let lines: Vec<&str> = card.iter().map(|(text, _)| text.as_str()).collect();
    assert_eq!(
        lines,
        [
            "Máy này đang cho điều khiển từ xa",
            "Mã máy — đọc cho người kia gõ vào:",
            "123 456 789",
            "Mật khẩu phiên:",
            "123456",
            "đang khởi động",
            "rtt 12.0 ms   đã gửi 2.0 KB   đã nhận 10 B",
            "đang mã hoá 1920x1080 Hevc Yuv420 @60 fps",
        ]
    );
    assert_eq!(state.copied_password(), "123456");
}

#[test]
fn a_host_shows_its_own_addresses() {
    let state = SessionState::start(
        &config(Role::Host),
        &Some("192.168.1.10".into()),
        &Some("100.64.0.1".into()),
    );
    let card = texts(&state.draw_host_card("", ""));
    let lines: Vec<&str> = card.iter().map(|(text, _)| text.as_str()).collect();
    assert_eq!(
        lines[3..7],
        ["Địa chỉ để máy kia gõ:", "192.168.1.10:1", "Địa chỉ để máy kia gõ:", "100.64.0.1:1"]
    );
}

#[test]
fn a_shared_clipboard_can_be_switched_off() {
    let mut state = SessionState::start(&config(Role::Viewer), &None, &None);
    let copy = || {
        vec![
            NetEvent::Clipboard("một".into()),
            NetEvent::Latency(1),
            NetEvent::Clipboard("hai".into()),
        ]
    };
    assert!(state.sync_clipboard());
    assert_eq!(state.pump(copy(), false), ["một", "hai"]);
    state.click(Click::Clipboard);
    assert!(!state.sync_clipboard());
    assert!(state.pump(copy(), false).is_empty());
}

#[test]
fn waiting_for_the_first_picture() {
    let mut state = SessionState::start(&config(Role::Viewer), &None, &None);
    state.pump(vec![NetEvent::Info(info())], false);
    assert_eq!(
        state.waiting().as_deref(),
        Some("Đã nối — đang chờ hình từ máy kia…")
    );
    state.pump(Vec::new(), true);
    assert_eq!(state.waiting(), None);
}

#[test]
fn a_viewer_shows_the_link() {
    let mut state = SessionState::start(&config(Role::Viewer), &None, &None);
    assert_eq!(state.draw_video("", "").len(), 2);
    state.pump(vec![NetEvent::Link(link())], false);
    let lines = texts(&state.draw_video("12.0", "0.00"));
    assert_eq!(lines[0], ("điều khiển: tắt (F9)".to_string(), Tone::Warn));
    assert_eq!(lines[1].0, "rtt 12.0 ms   mất gói 0.00%   mtu 1400");
    assert_eq!(lines[2].0, "F10 ẩn/hiện bảng này   F8 chat");
}

#[test]
fn times_are_kept() {
    let mut state = SessionState::start(&config(Role::Viewer), &None, &None);
    let message = |at| ChatMessage { from: "A".into(), body: "chào".into(), sent_at_ms: at };
    state.pump(
        vec![
            NetEvent::Chat(message(77)),
            NetEvent::OutgoingOffer(offer(2, "ra.zip", 10)),
            NetEvent::OutgoingOffer(offer(4, "ra.zip", 10)),
        ],
        false,
    );
    let noted = state.chat().entries()[1].at_ms;
    let started: Vec<_> = state.transfers().list().iter().map(|row| row.started).collect();
    state.pump(
        vec![
            NetEvent::TransferAccepted(4),
            NetEvent::TransferProgress { id: 2, done: 5 },
            NetEvent::TransferFailed { id: 2, reason: "đứt".into() },
            NetEvent::Chat(message(5)),
        ],
        false,
    );
    let times: Vec<u64> = state.chat().entries().iter().map(|entry| entry.at_ms).collect();
    assert_eq!((times[0], times[1], times[4]), (77, noted, 5));
    assert_eq!(state.transfers().list()[0].started, started[0]);
    assert!(state.transfers().list()[1].started >= started[1]);
}

#[test]
fn rows_of_files() {
    let mut files = Transfers::default();
    files.offer_incoming(offer(1, "vào.zip", 2048));
    files.offer_outgoing(offer(2, "ra.zip", 10));
    let (title, footer) = draw_transfers(&files.list()[0]);
    assert_eq!(title, "↓ vào.zip  (2.0 KB)");
    assert!(matches!(footer, Footer::Ask));
    let (title, footer) = draw_transfers(&files.list()[1]);
    assert_eq!(title, "↑ ra.zip  (10 B)");
    assert!(matches!(footer, Footer::Text { text, .. } if text == "chờ đầu kia đồng ý"));
    files.progress(2, 40);
    assert!(matches!(
        draw_transfers(&files.list()[1]).1,
        Footer::Bar { part: 10, whole: 10 }
    ));
    files.progress(9, 1);
    files.finish(2, None);
    assert!(matches!(
        draw_transfers(&files.list()[1]).1,
        Footer::Text { text, tone: Tone::Good, .. } if text == "xong"
    ));
    files.reject(1);
    assert!(matches!(
        draw_transfers(&files.list()[0]).1,
        Footer::Text { text, tone: Tone::Warn, .. } if text == "bị từ chối"
    ));
    files.fail(1, "đứt".into());
    assert!(matches!(
        draw_transfers(&files.list()[0]).1,
        Footer::Text { text, tone: Tone::Bad, .. } if text == "đứt"
    ));
    files.finish(1, Some("/x".into()));
    assert!(matches!(
        draw_transfers(&files.list()[0]).1,
        Footer::Text { text, folder: Some(path), .. } if text == "xong → /x" && path == "/x"
    ));
    files.finish(2, Some("/y".into()));
    assert!(matches!(draw_transfers(&files.list()[1]).1, Footer::Text { folder: None, .. }));
    assert_eq!(pace(7, 5), (7, 1_000_000));
    assert_eq!(pace(7, 2_000_000), (7, 2_000_000));
    files.accept_local(2);
    assert!(files.list()[1].rate().1 >= 1_000_000);
    assert_eq!(speed_text(1536), "1.5 KB/s");
}

#[test]
fn lines_of_the_chat() {
    let entry = |who| ChatEntry { who, name: "kia".into(), body: "ơi".into(), at_ms: 1000 };
    let (name, tone, body, when) = draw_chat(&entry(Who::Peer), 12_999);
    assert_eq!((name.as_str(), tone, body.as_str()), ("kia", Tone::Warn, "ơi"));
    assert_eq!(when, "11s");
    assert_eq!(draw_chat(&entry(Who::Me), 0).0, "bạn");
    assert_eq!(draw_chat(&entry(Who::System), 0).0, "•");
    assert_eq!(ago(9_999, 0), "vừa xong");
    assert_eq!(ago(0, 9_999), "vừa xong");
    assert_eq!(ago(10_000, 0), "10s");
    assert_eq!(ago(59_999, 0), "59s");
    assert_eq!(ago(60_000, 0), "1 phút");
    assert_eq!(ago(3_599_999, 0), "59 phút");
    assert_eq!(ago(3_600_000, 0), "1 giờ");
    assert_eq!(ago(u64::MAX, 0), format!("{} giờ", u64::MAX / 3_600_000));
}

#[test]
fn a_trial_on_one_machine() {
    let mut state = LocalState::start();
    assert_eq!(state.hotkeys(false, true, false), Some(true));
    assert_eq!(state.hotkeys(false, false, true), None);
    let counters = Counters { captured: 1, encoded: 2, decoded: 3, dropped_late: 4, errors: 5 };
    let page = state.update(false, &counters, false, "tắt");
    assert_eq!(page.counters, "chụp 1 · mã hoá 2 · giải mã 3 · bỏ 4 · lỗi 5");
    assert!(!page.picture && !page.pass_input);
    let overlay = page.overlay.expect("bảng hiện");
    assert_eq!(texts(&overlay)[0], ("điều khiển: tắt (F9)".to_string(), Tone::Warn));
    assert_eq!(texts(&overlay)[1].0, "F10 ẩn/hiện bảng này");
    state.hotkeys(true, false, false);
    let page = state.update(true, &counters, true, "bật");
    assert!(page.picture && page.pass_input && page.overlay.is_none());
    assert!(state.update(false, &counters, true, "bật").picture);
}

fn start_page(args: &Args) -> (RdApp, Option<Role>) {
    let form = Form::from_args(args, "máy", "/tmp");
    let (watcher, _) = Watcher::new(0);
    RdApp::new(form, args, true, watcher)
}

fn labels(page: &[Widget]) -> Vec<String> {
    page.iter()
        .map(|widget| match widget {
            Widget::Text { text, .. }
            | Widget::Button { text, .. }
            | Widget::Edit { text, .. }
            | Widget::Link { text, .. } => text.clone(),
            Widget::Number { unit, .. } => unit.clone(),
            Widget::Spinner => "…".into(),
            Widget::Rule => "—".into(),
        })
        .collect()
}

#[test]
fn the_first_screen() {
    let (mut app, go) = start_page(&Args::default());
    assert_eq!(go, None);
    let shown = labels(&app.draw_start());
    assert_eq!(shown[0], "Điều khiển máy tính từ xa");
    assert_eq!(shown[1], "card đồ hoạ hiển thị được 10-bit");
    assert_eq!(shown[12..15], ["Tailscale", "…", "đang kiểm tra…"]);
    assert_eq!(shown.len(), 25);
    assert!(matches!(
        app.draw_start()[8],
        Widget::Number { field: Field::Fps, low: 15, high: 240, .. }
    ));

    app.tailscale.done(Some("ghi chú".into()), Status {
        state: Some(State::Running),
        self_ip: Some("100.64.0.1".into()),
        self_name: "me".into(),
        peers: vec![
            Peer { name: "a".into(), ip: "100.64.0.2".into(), os: "linux".into(), online: true },
            Peer { name: "b".into(), ip: "100.64.0.3".into(), os: "".into(), online: false },
        ],
        auth_url: None,
    });
    app.error = Some("hỏng".into());
    let shown = labels(&app.draw_start());
    assert_eq!(
        shown[12..25],
        [
            "Tailscale",
            "Làm mới",
            "Đã kết nối tailnet",
            "máy này: me",
            "Địa chỉ để máy kia gõ:",
            "100.64.0.1:47823",
            "Chép",
            "Bấm một máy để điền sẵn địa chỉ:",
            "a (linux)",
            "đang bật",
            "b",
            "đang tắt",
            "ghi chú",
        ]
    );
    assert_eq!(shown.last().map(String::as_str), Some("hỏng"));

    assert!(matches!(app.press(Act::Pick(1)), Wish::Nothing));
    assert_eq!(app.form.target, "");
    app.press(Act::Pick(0));
    assert_eq!(app.form.target, "100.64.0.2:47823");
    assert_eq!(app.error, None);
    assert!(matches!(app.press(Act::CopyAddress), Wish::Copy(s) if s == "100.64.0.1:47823"));
    assert!(matches!(app.press(Act::Start(Role::Host)), Wish::Begin(Role::Host)));
    assert!(matches!(app.press(Act::StartLocal), Wish::BeginLocal));
    assert_eq!(app.tailscale_ip().as_deref(), Some("100.64.0.1"));
    app.press(Act::NewPassword);
    assert_eq!(app.form.password.len(), 6);
    assert!(matches!(app.press(Act::Refresh), Wish::Tailscale(Job::Refresh { .. })));
    assert!(matches!(app.press(Act::Login), Wish::Nothing));
}

#[test]
fn the_box_on_tailscale_by_its_state() {
    let (mut app, _) = start_page(&Args::default());
    let mut look = |state: State| {
        let mut status = Status::default();
        status.state = Some(state);
        app.tailscale.done(None, status);
        assert_eq!(app.tailscale_ip(), None);
        labels(&app.draw_start())[14..16].to_vec()
    };
    assert_eq!(look(State::NotInstalled)[1], "Tải Tailscale");
    assert_eq!(look(State::Stopped), ["Đã cài nhưng chưa bật.", "Bật kết nối"]);
    assert_eq!(look(State::NeedsLogin), ["Chưa đăng nhập.", "Đăng nhập Tailscale"]);
    assert_eq!(look(State::Broken("lạ".into()))[0], "lạ");
}

#[test]
fn screens_follow_each_other() {
    let mut args = Args::default();
    args.connect = Some("máy-kia".into());
    let (mut app, go) = start_page(&args);
    assert_eq!(go, Some(Role::Viewer));
    args.host = true;
    assert_eq!(start_page(&args).1, Some(Role::Host));

    assert!(app.start(Role::Viewer, Lookup::Nothing, None, Lookup::Nothing).is_none());
    assert_eq!(
        app.error.as_deref(),
        Some("máy-kia không phân giải ra địa chỉ nào")
    );
    let wanted = app
        .start(Role::Host, Lookup::Nothing, None, Lookup::Nothing)
        .expect("chia sẻ thì không cần địa chỉ");
    app.no_directory("đầy");
    assert_eq!(
        app.error.as_deref(),
        Some("không tạo được thư mục nhận tệp: đầy")
    );
    app.joined(&wanted, &None, Some("cổng bận".into()));
    assert_eq!(app.error.as_deref(), Some("cổng bận"));
    assert!(matches!(app.screen, Screen::Start));
    app.joined(&wanted, &None, None);
    assert!(app.error.is_none());
    assert!(matches!(app.screen, Screen::Session(_)));
    app.turned(Outcome::Continue);
    assert!(matches!(app.screen, Screen::Session(_)));
    app.turned(Outcome::Leave);
    assert!(matches!(app.screen, Screen::Start));
    app.start_local(Some("không có màn hình".into()));
    assert_eq!(app.error.as_deref(), Some("không có màn hình"));
    app.start_local(None);
    assert!(matches!(app.screen, Screen::Local(_)));
}

#[test]
fn what_this_machine_can_do() {
    let display = |primary| DisplayInfo {
        id: 7,
        name: "VA2419".into(),
        width: 1920,
        height: 1080,
        scale: Real32 { bits: 0x3f80_0000 },
        refresh_hz: 60,
        is_primary: primary,
    };
    let mut findings = Findings {
        version: "0.1.9".into(),
        os: "linux".into(),
        arch: "x86_64".into(),
        displays: Ok(vec![display(true), display(false)]),
        trial: Trial::Frame { width: 1920, height: 1080 },
        encodable: vec![Codec::Hevc, Codec::H264],
        decodable: vec![Codec::H264, Codec::Hevc],
        lan_ip: Some("192.168.1.10".into()),
        tailscale: "một\r\nhai\n\nba".into(),
    };
    assert_eq!(
        probe(&findings),
        "remote-desktop 0.1.9 trên linux x86_64\n\
         \nMàn hình:\n\
         \x20 [7] VA2419 — 1920x1080 @ 60Hz (chính)\n\
         \x20 [7] VA2419 — 1920x1080 @ 60Hz\n\
         \nChụp thử màn hình chính:\n\
         \x20 được — frame 1920x1080\n\
         \nVideo:\n\
         \x20 mã hoá được:  [Hevc, H264]\n\
         \x20 giải mã được: [H264, Hevc]\n\
         \nMạng:\n\
         \x20 địa chỉ trong mạng nhà: 192.168.1.10:47823\n\
         \nTailscale:\n\
         \x20 một\n\
         \x20 hai\n\
         \x20 \n\
         \x20 ba\n"
    );
    findings.displays = Ok(Vec::new());
    findings.trial = Trial::Refused(CaptureError::PermissionDenied);
    findings.decodable = Vec::new();
    findings.lan_ip = None;
    let text = probe(&findings);
    assert!(text.contains("\n  (hệ điều hành không khai màn hình nào)\n"));
    assert!(text.contains("\n  KHÔNG được: hệ điều hành từ chối"));
    assert!(text.contains("\n  → khi chia sẻ, người kia sẽ thấy hình tổng hợp"));
    assert!(text.contains("  giải mã được: []\n  → thiếu bộ giải mã HEVC"));
    assert!(text.contains("~30%).\n    Cài \"HEVC Video Extensions\" trong"));
    assert!(text.contains("\n  không xác định được địa chỉ trong mạng nhà\n"));
    findings.displays = Err(CaptureError::Unsupported);
    findings.trial = Trial::NoFrame(CaptureError::Timeout);
    let text = probe(&findings);
    assert!(text.contains("\n  không liệt kê được: nền tảng này chưa được hỗ trợ\n"));
    assert!(text.contains("\n  mở được luồng nhưng không có frame nào: chưa có frame"));
}

#[test]
fn lines_are_those_of_the_language() {
    for text in ["", "a", "a\n", "a\r\n", "a\r", "\r\n", "\n\n", "a\n\r\nb\r\n\r"] {
        let findings = Findings {
            version: String::new(),
            os: String::new(),
            arch: String::new(),
            displays: Ok(Vec::new()),
            trial: Trial::Frame { width: 1, height: 1 },
            encodable: Vec::new(),
            decodable: Vec::new(),
            lan_ip: None,
            tailscale: text.to_string(),
        };
        let report = probe(&findings);
        let (_, tail) = report.split_once("\nTailscale:\n").expect("có mục");
        let usual: String = text.lines().map(|line| format!("  {line}\n")).collect();
        assert_eq!(tail, usual, "{text:?}");
    }
}

#[test]
fn a_text_does_not_come_back() {
    let mut clipboard = Clipboard::start(Some("cũ".into()));
    assert_eq!(clipboard.take_local_change("cũ".into()), None);
    assert_eq!(clipboard.take_local_change("mới".into()).as_deref(), Some("mới"));
    assert_eq!(clipboard.take_local_change("mới".into()), None);
    assert_eq!(clipboard.set("mới".into()), None);
    assert_eq!(clipboard.set("từ kia".into()).as_deref(), Some("từ kia"));
    clipboard.written("từ kia".into());
    assert_eq!(clipboard.take_local_change("từ kia".into()), None);
    let long = "x".repeat(256 * 1024 + 1);
    assert_eq!(clipboard.take_local_change(long), None);
    let fits = "x".repeat(256 * 1024);
    assert!(clipboard.take_local_change(fits).is_some());
}

#[test]
fn one_dialog_at_a_time() {
    let mut picker = FilePicker::default();
    assert!(picker.open());
    picker.opened(true);
    assert!(picker.busy() && !picker.open());
    assert!(picker.take(Picked::Pending).is_empty());
    assert!(picker.busy());
    assert_eq!(picker.take(Picked::Paths(vec!["a".into()])), ["a"]);
    assert!(!picker.busy());
    picker.opened(true);
    assert!(picker.take(Picked::Gone).is_empty());
    assert!(!picker.busy());
}
