use remote_desktop::app::tailscale::{
    describe, failure, looks_like_ipv4, note, sort_peers, status, Job, Login, LoginStep, Peer,
    RawNode, RawStatus, Reading, State, Status, Watcher, LOGIN_POLLS,
};

fn node(host_name: Option<&str>, dns_name: Option<&str>, ips: Option<Vec<&str>>) -> RawNode {
    RawNode {
        host_name: host_name.map(String::from),
        dns_name: dns_name.map(String::from),
        ips: ips.map(|list| list.into_iter().map(String::from).collect()),
        os: None,
        online: None,
    }
}

#[test]
fn ten_ngan_cat_duoi_magicdns() {
    let node = node(Some("admin-pc"), Some("may-ban.tail1234.ts.net."), None);
    assert_eq!(node.short_name(), "may-ban");
}

#[test]
fn khong_co_dnsname_thi_lay_hostname() {
    let node = node(Some("admin-pc"), None, None);
    assert_eq!(node.short_name(), "admin-pc");
}

#[test]
fn chi_lay_dia_chi_ipv4() {
    let node = node(None, None, Some(vec!["fd7a:115c:a1e0::1", "100.64.1.9"]));
    assert_eq!(node.ipv4().as_deref(), Some("100.64.1.9"));
}

fn peer(name: &str, online: bool) -> Peer {
    Peer {
        name: name.into(),
        ip: "100.0.0.1".into(),
        os: String::new(),
        online,
    }
}

#[test]
fn may_dang_bat_dung_truoc_trong_danh_sach() {
    let mut peers = vec![peer("b", false), peer("c", true), peer("a", true)];
    sort_peers(&mut peers);
    let names: Vec<&str> = peers.iter().map(|p| p.name.as_str()).collect();
    assert_eq!(names, ["a", "c", "b"]);
}

#[test]
fn addresses_are_told_apart() {
    for text in ["100.64.1.9", "0.0.0.0", "255.255.255.255"] {
        assert!(looks_like_ipv4(text), "{text}");
    }
    for text in ["", "1.2.3", "1.2.3.4.5", "256.1.1.1", "::1", "a.b.c.d", "1..2.3"] {
        assert!(!looks_like_ipv4(text), "{text}");
    }
}

#[test]
fn an_answer_becomes_a_status() {
    let mut desk = node(Some("desk"), None, Some(vec!["100.64.0.2"]));
    desk.os = Some("windows".into());
    let mut lap = node(Some("lap"), None, Some(vec!["100.64.0.3"]));
    lap.online = Some(true);
    let lost = node(Some("lost"), None, None);
    let read = status(Reading::Parsed(RawStatus {
        backend_state: Some("Running".into()),
        auth_url: None,
        self_node: Some(node(Some("me"), None, Some(vec!["100.64.0.1"]))),
        peer: vec![desk, lap, lost],
    }));
    assert!(read.running());
    assert_eq!(read.self_name, "me");
    assert_eq!(read.self_ip.as_deref(), Some("100.64.0.1"));
    let names: Vec<&str> = read.peers.iter().map(|p| p.name.as_str()).collect();
    assert_eq!(names, ["lap", "desk"]);
    assert_eq!(read.peers[1].os, "windows");

    assert_eq!(
        status(Reading::Failed { installed: false }).state,
        Some(State::NotInstalled)
    );
    assert_eq!(
        status(Reading::Failed { installed: true }).state,
        Some(State::Stopped)
    );
    assert!(matches!(
        status(Reading::Unreadable("hỏng".into())).state,
        Some(State::Broken(_))
    ));
}

#[test]
fn a_machine_is_described() {
    assert!(describe(&None, &Status::default()).starts_with("chưa cài"));
    let mut running = Status::default();
    running.state = Some(State::Running);
    running.self_name = "me".into();
    running.peers.push(peer("a", true));
    assert_eq!(
        describe(&Some("/usr/bin/tailscale".into()), &running),
        "chương trình: /usr/bin/tailscale\nđang chạy — máy này là me (?)\nthấy 1 máy khác trong tailnet"
    );
}

#[test]
fn one_job_at_a_time() {
    let (mut watcher, first) = Watcher::new(1000);
    assert!(matches!(first, Job::Refresh { keep: None }));
    assert!(watcher.busy());
    assert!(watcher.login().is_none());
    watcher.done(Some("ghi chú".into()), Status::default());
    assert!(!watcher.busy());
    assert!(watcher.tick(5999, 5000).is_none());
    let Some(Job::Refresh { keep }) = watcher.tick(6000, 5000) else {
        panic!("đến hạn thì phải hỏi lại");
    };
    assert_eq!(keep.as_deref(), Some("ghi chú"));
    assert!(watcher.up().is_none());
    watcher.not_started();
    assert!(matches!(watcher.up(), Some(Job::Up)));
}

#[test]
fn jobs_leave_notes() {
    assert_eq!(
        note(Job::Login, Ok("https://a".into())).as_deref(),
        Some("mở trang này để đăng nhập: https://a")
    );
    assert_eq!(note(Job::Login, Ok(String::new())).as_deref(), Some("đã đăng nhập"));
    assert_eq!(note(Job::Login, Err("hỏng".into())).as_deref(), Some("hỏng"));
    assert_eq!(note(Job::Up, Ok(String::new())), None);
    assert_eq!(
        note(Job::Up, Err("hỏng".into())).as_deref(),
        Some("không bật được: hỏng")
    );
}

#[test]
fn logging_in_gives_up_at_last() {
    let mut waiting = Status::default();
    waiting.state = Some(State::NeedsLogin);
    let (mut login, step) = Login::begin(&waiting, true);
    assert!(matches!(step, LoginStep::Spawn));
    assert!(matches!(login.spawned(None), LoginStep::Poll));
    for _ in 1..LOGIN_POLLS {
        assert!(matches!(login.polled(&waiting), LoginStep::Poll));
    }
    assert!(matches!(
        login.polled(&waiting),
        LoginStep::Done { result: Err(_), .. }
    ));

    waiting.auth_url = Some("https://login".into());
    let (mut login, _) = Login::begin(&Status::default(), true);
    let LoginStep::Done { open, result } = login.polled(&waiting) else {
        panic!("có địa chỉ thì xong");
    };
    assert!(open);
    assert_eq!(result.as_deref(), Ok("https://login"));
}

#[test]
fn a_failed_call_says_why() {
    assert_eq!(failure("  hỏng \n", "up"), "hỏng");
    assert!(failure("", "up").contains("up"));
}
