use remote_desktop::protocol::control::ChatMessage;
use remote_desktop::session::chat::{ChatLog, HISTORY_LIMIT, MAX_CHAT_BODY};

fn remote(body: &str) -> ChatMessage {
    ChatMessage {
        from: "peer".into(),
        body: body.into(),
        sent_at_ms: 1,
    }
}

#[test]
fn compose_trims_and_skips_empty() {
    let mut log = ChatLog::new();
    assert!(log.compose("hoa", "   ").is_none());
    assert!(log.compose("hoa", "\n\t ").is_none());
    let msg = log.compose("hoa", "  chào cậu  ").unwrap();
    assert_eq!(msg.body, "chào cậu");
    assert_eq!(log.len(), 1);
    assert_eq!(log.unread(), 0);
}

#[test]
fn receive_counts_unread_until_read() {
    let mut log = ChatLog::new();
    assert!(log.receive(remote("một")));
    assert!(log.receive(remote("hai")));
    assert_eq!(log.unread(), 2);
    log.mark_read();
    assert_eq!(log.unread(), 0);
    assert_eq!(log.len(), 2);
}

#[test]
fn hostile_message_is_defanged() {
    let mut log = ChatLog::new();
    assert!(log.receive(remote("dòng 1\ndòng 2\u{1b}[31m đỏ\u{0}")));
    let entry = log.entries().last().unwrap();
    assert_eq!(entry.body, "dòng 1\ndòng 2[31m đỏ");

    let mut log = ChatLog::new();
    assert!(log.receive(remote(&"ữ".repeat(MAX_CHAT_BODY))));
    let entry = log.entries().last().unwrap();
    assert!(entry.body.len() <= MAX_CHAT_BODY);
    assert!(entry.body.chars().all(|c| c == 'ữ'));

    let mut log = ChatLog::new();
    log.receive(ChatMessage {
        from: "   ".into(),
        body: "hi".into(),
        sent_at_ms: 0,
    });
    assert_eq!(log.entries().last().unwrap().from, "?");
}

#[test]
fn history_stays_bounded() {
    let mut log = ChatLog::new();
    for i in 0..HISTORY_LIMIT + 50 {
        log.receive(remote(&i.to_string()));
    }
    assert_eq!(log.len(), HISTORY_LIMIT);
    assert_eq!(
        log.entries().last().unwrap().body,
        (HISTORY_LIMIT + 49).to_string()
    );
}
