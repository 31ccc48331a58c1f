use remote_desktop::app::args::{refused, Args, DEFAULT_PORT, USAGE};
use remote_desktop::app::form::{
    looked_up, machine_name, parse_peer, password_of, random_password, resolve, Form, Lookup,
};
use remote_desktop::app::launch::{
    chon_card, drops_log, fatal, no_window, Card, DeviceType, MAX_LOG_BYTES,
};
use remote_desktop::net::{Address, Ip, PeerAddress, PeerId, Role};

fn parse(args: &[&str]) -> Result<Args, String> {
    Args::parse(args.iter().map(|a| a.to_string()).collect())
}

#[test]
fn no_argument_is_needed() {
    let args = parse(&[]).unwrap();
    assert!(!args.help && !args.probe && !args.host);
    assert_eq!((args.fps, args.bitrate, args.port), (60, 30_000, 47823));
    assert_eq!(args.connect, None);
    assert_eq!(DEFAULT_PORT, 47823);
    assert!(USAGE.starts_with("Điều khiển máy tính từ xa\n\n    remote-desktop [TUỲ CHỌN]\n"));
}

#[test]
fn arguments_fill_in_the_form() {
    let args = parse(&[
        "--host", "--connect", "123", "--password", "--host", "--rendezvous", "r:1", "--name",
        "tôi", "--fps", "+30", "--bitrate", "500", "--port", "65535", "--downloads", "/tmp/x",
        "--probe", "-h",
    ])
    .unwrap();
    assert!(args.help && args.probe && args.host);
    assert_eq!(args.connect.as_deref(), Some("123"));
    assert_eq!(args.password.as_deref(), Some("--host"));
    assert_eq!(args.rendezvous.as_deref(), Some("r:1"));
    assert_eq!(args.name.as_deref(), Some("tôi"));
    assert_eq!((args.fps, args.bitrate, args.port), (30, 500, 65535));
    assert_eq!(args.downloads.as_deref(), Some("/tmp/x"));
    assert!(parse(&["--help"]).unwrap().help);
}

#[test]
fn wrong_arguments_are_named() {
    assert_eq!(parse(&["--gì"]).unwrap_err(), "không hiểu tham số --gì");
    assert_eq!(parse(&["--name"]).unwrap_err(), "--name cần một giá trị đi kèm");
    assert_eq!(parse(&["--fps", "x"]).unwrap_err(), "--fps phải là số");
    assert_eq!(parse(&["--fps", "4294967296"]).unwrap_err(), "--fps phải là số");
    assert_eq!(
        parse(&["--bitrate", "-1"]).unwrap_err(),
        "--bitrate phải là số kbps"
    );
    assert_eq!(parse(&["--port", "65536"]).unwrap_err(), "--port phải là số cổng");
    assert_eq!(parse(&["--port", ""]).unwrap_err(), "--port phải là số cổng");
    let text = refused("x");
    assert_eq!(text, format!("Tham số không hợp lệ: x\n\n{USAGE}"));
}

#[test]
fn numbers_are_read_as_the_language_reads_them() {
    for text in ["0", "007", "+5", "+", "-0", "1_0", " 1", "4294967295", "4294967296", "٣"] {
        let ours = parse(&["--fps", text]).map(|args| args.fps).ok();
        assert_eq!(ours, text.parse::<u32>().ok(), "{text}");
    }
}

#[test]
fn passwords_are_six_digits() {
    assert_eq!(password_of(42), "000042");
    assert_eq!(password_of(999_999), "999999");
    let mut seen = Vec::new();
    for _ in 0..64 {
        let password = random_password();
        assert_eq!(password.len(), 6);
        assert!(password.bytes().all(|b| b.is_ascii_digit()));
        seen.push(password);
    }
    seen.sort();
    seen.dedup();
    assert!(seen.len() > 1);
}

#[test]
fn machines_have_a_name() {
    assert_eq!(machine_name(Some("a".into()), Some("b".into())), "a");
    assert_eq!(machine_name(None, Some("b".into())), "b");
    assert_eq!(machine_name(None, None), "máy không tên");
}

const HOME: Address = Address { ip: Ip::V4([192, 168, 1, 10]), port: 7 };

#[test]
fn addresses_get_the_usual_port() {
    assert_eq!(looked_up("192.168.1.10"), "192.168.1.10:47823");
    assert_eq!(looked_up("192.168.1.10:7"), "192.168.1.10:7");
    assert_eq!(resolve("a", Lookup::Found(HOME)), Ok(HOME));
    assert_eq!(
        resolve("a", Lookup::Nothing),
        Err("a không phân giải ra địa chỉ nào".to_string())
    );
    assert_eq!(
        resolve("a", Lookup::Failed("hỏng".into())),
        Err("không hiểu địa chỉ a: hỏng".to_string())
    );
}

#[test]
fn a_code_goes_before_an_address() {
    let id = PeerId { number: 123_456_789 };
    assert_eq!(
        parse_peer("123456789", Some(id), Lookup::Found(HOME)),
        Ok(PeerAddress::Code(id))
    );
    assert_eq!(
        parse_peer("a", None, Lookup::Found(HOME)),
        Ok(PeerAddress::Direct(HOME))
    );
    assert_eq!(
        parse_peer("", Some(id), Lookup::Found(HOME)),
        Err("chưa nhập mã hoặc địa chỉ của máy kia".to_string())
    );
    assert_eq!(
        parse_peer("a", None, Lookup::Nothing),
        Err("a không phân giải ra địa chỉ nào".to_string())
    );
}

fn form() -> Form {
    Form {
        target: " máy-kia ".into(),
        password: " 123456 ".into(),
        rendezvous: "  ".into(),
        name: "\ttôi ".into(),
        fps: 0,
        bitrate: 900_000,
        downloads: " /tmp ".into(),
        port: 4000,
    }
}

#[test]
fn a_form_is_filled_from_the_command_line() {
    let form = Form::from_args(&Args::default(), "máy", "/home/x/Downloads");
    assert_eq!(form.name, "máy");
    assert_eq!(form.downloads, "/home/x/Downloads");
    assert_eq!(form.password.len(), 6);
    assert_eq!(form.target, "");
    assert_eq!(form.rendezvous, "");
    let args = parse(&["--password", "p", "--name", "n", "--downloads", "d", "--connect", "c"]);
    let form = Form::from_args(&args.unwrap(), "máy", "/home/x/Downloads");
    assert_eq!(
        (form.password.as_str(), form.name.as_str(), form.downloads.as_str()),
        ("p", "n", "d")
    );
    assert_eq!(form.target, "c");
}

#[test]
fn a_form_becomes_a_session() {
    let host = form()
        .config(Role::Host, true, Lookup::Nothing, None, Lookup::Nothing)
        .unwrap();
    assert_eq!(host.bind, Address { ip: Ip::V4([0, 0, 0, 0]), port: 4000 });
    assert_eq!(host.peer, None);
    assert_eq!(host.rendezvous, None);
    assert_eq!((host.target_fps, host.bitrate_kbps), (1, 500_000));
    assert_eq!(
        (host.name.as_str(), host.password.as_str(), host.download_dir.as_str()),
        ("tôi", "123456", "/tmp")
    );
    assert!(host.allow_10bit);

    let mut asked = form();
    asked.rendezvous = " r ".into();
    asked.fps = 241;
    asked.bitrate = 1;
    assert_eq!(asked.server().as_deref(), Some("r:47823"));
    assert_eq!(asked.other(), ("máy-kia".into(), "máy-kia:47823".into()));
    let viewer = asked
        .config(Role::Viewer, false, Lookup::Found(HOME), None, Lookup::Found(HOME))
        .unwrap();
    assert_eq!(viewer.bind.port, 0);
    assert_eq!(viewer.rendezvous, Some(HOME));
    assert_eq!(viewer.peer, Some(PeerAddress::Direct(HOME)));
    assert_eq!((viewer.target_fps, viewer.bitrate_kbps), (240, 500));
}

#[test]
fn a_wrong_form_says_what_is_wrong() {
    let mut asked = form();
    asked.rendezvous = "r".into();
    asked.target = "".into();
    let wrong = asked.config(Role::Viewer, false, Lookup::Nothing, None, Lookup::Nothing);
    assert_eq!(wrong.unwrap_err(), "r không phân giải ra địa chỉ nào");
    let wrong = asked.config(Role::Viewer, false, Lookup::Found(HOME), None, Lookup::Nothing);
    assert_eq!(wrong.unwrap_err(), "chưa nhập mã hoặc địa chỉ của máy kia");
    assert!(form().server().is_none());
}

#[test]
fn the_best_card_is_picked() {
    let card = |device_type, usable| Card { device_type, usable, crashed: false };
    assert_eq!(
        chon_card(&[
            card(DeviceType::Cpu, true),
            card(DeviceType::Discrete, false),
            card(DeviceType::Integrated, true),
            card(DeviceType::Integrated, true),
            card(DeviceType::Virtual, true),
        ]),
        Ok(2)
    );
    assert_eq!(chon_card(&[card(DeviceType::Other, true)]), Ok(0));
    let crashed = Card { device_type: DeviceType::Discrete, usable: true, crashed: true };
    assert_eq!(chon_card(&[crashed, card(DeviceType::Other, true)]), Ok(1));
    assert_eq!(chon_card(&[card(DeviceType::Cpu, false), crashed]), Ok(1));
    assert_eq!(
        chon_card(&[card(DeviceType::Discrete, false)]),
        Err("không có card màn hình nào dùng được (máy báo có 1 card)".to_string())
    );
}

#[test]
fn failures_point_to_the_log() {
    assert_eq!(fatal("a", &None), "a");
    assert_eq!(fatal("a", &Some("/x".into())), "a\n\nNhật ký: /x");
    assert!(no_window("lỗi").starts_with("Không mở được cửa sổ chương trình.\n\nlỗi\n\nThường"));
    assert!(drops_log(Some(MAX_LOG_BYTES + 1)));
    assert!(!drops_log(Some(4 << 20)));
    assert!(!drops_log(None));
}
