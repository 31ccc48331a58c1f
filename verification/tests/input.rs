use remote_desktop::input::HeldState;
use remote_desktop::protocol::control::{KeyCode, MouseButton};

#[test]
fn loc_su_kien_trung_lap() {
    let mut held = HeldState::default();
    assert!(held.set_key(KeyCode::A, true));
    assert!(!held.set_key(KeyCode::A, true));
    assert!(held.set_key(KeyCode::A, false));
    assert!(!held.set_key(KeyCode::A, false));
    assert!(held.is_empty());
}

#[test]
fn drain_tra_ve_moi_thu_dang_giu() {
    let mut held = HeldState::default();
    held.set_key(KeyCode::MetaLeft, true);
    held.set_key(KeyCode::C, true);
    held.set_button(MouseButton::Left, true);

    let (keys, buttons) = held.drain();
    assert_eq!(keys, vec![KeyCode::MetaLeft, KeyCode::C]);
    assert_eq!(buttons, vec![MouseButton::Left]);
    assert!(held.is_empty());
}
