use remote_desktop::protocol::control::FileOffer;
use remote_desktop::session::transfer::{
    IdSpace, Transfer, TransferState, Transfers, MAX_ITEMS, MAX_PENDING_INCOMING,
};

fn fraction(transfer: &Transfer) -> f32 {
    let (part, whole) = transfer.fraction();
    part as f32 / whole as f32
}

fn offer(id: u64, size: u64) -> FileOffer {
    FileOffer {
        transfer_id: id,
        name: "bao-cao.pdf".into(),
        size,
        hash: [0u8; 32],
    }
}

#[test]
fn two_sides_never_collide_on_ids() {
    let mut host = Transfers::new(IdSpace::Host);
    let mut viewer = Transfers::new(IdSpace::Viewer);
    let host_ids: Vec<_> = (0..100).map(|_| host.next_id()).collect();
    let viewer_ids: Vec<_> = (0..100).map(|_| viewer.next_id()).collect();
    for id in &host_ids {
        assert!(!viewer_ids.contains(id), "số hiệu {id} trùng giữa hai phe");
    }
    assert!(IdSpace::Host.owns(host_ids[0]));
    assert!(IdSpace::Viewer.owns(viewer_ids[0]));
    assert!(!IdSpace::Host.owns(viewer_ids[0]));
}

#[test]
fn happy_path_outgoing() {
    let mut t = Transfers::new(IdSpace::Host);
    let id = t.next_id();
    t.offer_outgoing(&offer(id, 1000));
    assert_eq!(t.get(id).unwrap().state, TransferState::Offered);

    assert!(t.peer_accepted(id));
    assert!(t.get(id).unwrap().is_running());
    t.progress(id, 400);
    assert!((fraction(t.get(id).unwrap()) - 0.4).abs() < 1e-6);

    assert!(t.finish(id, None));
    assert_eq!(t.get(id).unwrap().state, TransferState::Done { path: None });
    assert_eq!(fraction(t.get(id).unwrap()), 1.0);
    assert_eq!(t.running(), 0);
}

#[test]
fn happy_path_incoming() {
    let mut t = Transfers::new(IdSpace::Host);
    let id = IdSpace::Viewer.tag() | 5;
    assert!(t.offer_incoming(&offer(id, 10)));
    assert!(t.accept_incoming(id));
    t.progress(id, 10);
    assert!(t.finish(id, Some(String::from("/tmp/bao-cao.pdf"))));
    assert!(matches!(
        t.get(id).unwrap().state,
        TransferState::Done { path: Some(_) }
    ));
}

#[test]
fn out_of_order_messages_are_rejected() {
    let mut t = Transfers::new(IdSpace::Host);
    let id = t.next_id();

    assert!(!t.peer_accepted(id));

    t.offer_outgoing(&offer(id, 100));
    assert!(t.peer_accepted(id));
    t.progress(id, 50);
    assert!(!t.peer_accepted(id));
    assert_eq!(t.get(id).unwrap().done_bytes(), 50);

    assert!(!t.reject(id));
    assert!(t.get(id).unwrap().is_running());

    t.progress(id, 20);
    assert_eq!(t.get(id).unwrap().done_bytes(), 50);
    t.progress(id, 9999);
    assert_eq!(t.get(id).unwrap().done_bytes(), 100);

    assert!(t.finish(id, None));
    assert!(!t.finish(id, None));
    assert!(!t.fail(id, "muộn rồi"));
}

#[test]
fn hostile_peer_cannot_flood_or_spoof() {
    let mut t = Transfers::new(IdSpace::Host);

    assert!(!t.offer_incoming(&offer(7, 1)));

    let id = IdSpace::Viewer.tag() | 1;
    assert!(t.offer_incoming(&offer(id, 1)));
    assert!(!t.offer_incoming(&offer(id, 1)));

    for n in 2..=MAX_PENDING_INCOMING as u64 {
        assert!(t.offer_incoming(&offer(IdSpace::Viewer.tag() | n, 1)));
    }
    assert!(!t.offer_incoming(&offer(IdSpace::Viewer.tag() | 999, 1)));

    assert!(t.reject(id));
    assert!(t.offer_incoming(&offer(IdSpace::Viewer.tag() | 999, 1)));
}

#[test]
fn broken_connection_fails_everything_unfinished() {
    let mut t = Transfers::new(IdSpace::Host);
    let running = t.next_id();
    let offered = t.next_id();
    let done = t.next_id();
    t.offer_outgoing(&offer(running, 10));
    t.offer_outgoing(&offer(offered, 10));
    t.offer_outgoing(&offer(done, 10));
    t.peer_accepted(running);
    t.peer_accepted(done);
    t.finish(done, None);

    t.fail_all("mất kết nối");

    assert!(matches!(
        t.get(running).unwrap().state,
        TransferState::Failed { .. }
    ));
    assert!(matches!(
        t.get(offered).unwrap().state,
        TransferState::Failed { .. }
    ));
    assert_eq!(t.get(done).unwrap().state, TransferState::Done { path: None });
}

#[test]
fn list_stays_bounded_but_keeps_running_transfers() {
    let mut t = Transfers::new(IdSpace::Host);
    let alive = t.next_id();
    t.offer_outgoing(&offer(alive, 10));
    t.peer_accepted(alive);

    for _ in 0..MAX_ITEMS * 2 {
        let id = t.next_id();
        t.offer_outgoing(&offer(id, 1));
        t.peer_accepted(id);
        t.finish(id, None);
    }

    assert!(t.len() <= MAX_ITEMS);
    assert!(
        t.get(alive).is_some_and(Transfer::is_running),
        "dòng đang chạy bị đẩy ra khỏi danh sách"
    );
}

#[test]
fn empty_file_shows_as_complete() {
    let mut t = Transfers::new(IdSpace::Host);
    let id = t.next_id();
    t.offer_outgoing(&offer(id, 0));
    assert_eq!(fraction(t.get(id).unwrap()), 0.0);
    t.peer_accepted(id);
    assert_eq!(fraction(t.get(id).unwrap()), 1.0);
    t.finish(id, None);
    assert_eq!(fraction(t.get(id).unwrap()), 1.0);
}

#[test]
fn dismiss_only_removes_finished_rows() {
    let mut t = Transfers::new(IdSpace::Host);
    let id = t.next_id();
    t.offer_outgoing(&offer(id, 10));
    t.peer_accepted(id);
    t.dismiss(id);
    assert!(t.get(id).is_some(), "đang chạy mà bị xoá khỏi danh sách");
    t.finish(id, None);
    t.dismiss(id);
    assert!(t.get(id).is_none());
}
