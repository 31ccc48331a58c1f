use remote_desktop::input::keymap_macos::{modifier_flag, virtual_key};
use remote_desktop::input::keymap_windows::{physical_key, PhysicalKey, VK_PAUSE};
use remote_desktop::protocol::control::KeyCode;

#[test]
fn keymap_macos_khong_co_hai_phim_trung_ma() {
    const ALL: &[KeyCode] = &[
        KeyCode::A, KeyCode::B, KeyCode::C, KeyCode::D, KeyCode::E, KeyCode::F,
        KeyCode::G, KeyCode::H, KeyCode::I, KeyCode::J, KeyCode::K, KeyCode::L,
        KeyCode::M, KeyCode::N, KeyCode::O, KeyCode::P, KeyCode::Q, KeyCode::R,
        KeyCode::S, KeyCode::T, KeyCode::U, KeyCode::V, KeyCode::W, KeyCode::X,
        KeyCode::Y, KeyCode::Z,
        KeyCode::Digit0, KeyCode::Digit1, KeyCode::Digit2, KeyCode::Digit3,
        KeyCode::Digit4, KeyCode::Digit5, KeyCode::Digit6, KeyCode::Digit7,
        KeyCode::Digit8, KeyCode::Digit9,
        KeyCode::F1, KeyCode::F2, KeyCode::F3, KeyCode::F4, KeyCode::F5,
        KeyCode::F6, KeyCode::F7, KeyCode::F8, KeyCode::F9, KeyCode::F10,
        KeyCode::F11, KeyCode::F12,
        KeyCode::Escape, KeyCode::Tab, KeyCode::CapsLock, KeyCode::Space,
        KeyCode::Backspace, KeyCode::Enter,
        KeyCode::ShiftLeft, KeyCode::ShiftRight, KeyCode::ControlLeft,
        KeyCode::ControlRight, KeyCode::AltLeft, KeyCode::AltRight,
        KeyCode::MetaLeft, KeyCode::MetaRight,
        KeyCode::ArrowUp, KeyCode::ArrowDown, KeyCode::ArrowLeft, KeyCode::ArrowRight,
        KeyCode::Delete, KeyCode::Home, KeyCode::End, KeyCode::PageUp, KeyCode::PageDown,
        KeyCode::Minus, KeyCode::Equal, KeyCode::BracketLeft, KeyCode::BracketRight,
        KeyCode::Backslash, KeyCode::Semicolon, KeyCode::Quote, KeyCode::Backquote,
        KeyCode::Comma, KeyCode::Period, KeyCode::Slash,
        KeyCode::Numpad0, KeyCode::Numpad1, KeyCode::Numpad2, KeyCode::Numpad3,
        KeyCode::Numpad4, KeyCode::Numpad5, KeyCode::Numpad6, KeyCode::Numpad7,
        KeyCode::Numpad8, KeyCode::Numpad9,
        KeyCode::NumpadAdd, KeyCode::NumpadSubtract, KeyCode::NumpadMultiply,
        KeyCode::NumpadDivide, KeyCode::NumpadDecimal, KeyCode::NumpadEnter,
        KeyCode::NumLock,
    ];

    let mut seen: Vec<(u16, KeyCode)> = Vec::new();
    for code in ALL {
        let Some(vk) = virtual_key(*code) else {
            panic!("{code:?} phải có mã phím trên macOS");
        };
        if let Some((_, other)) = seen.iter().find(|(existing, _)| *existing == vk) {
            panic!("{code:?} và {other:?} cùng ra mã {vk}");
        }
        seen.push((vk, *code));
    }
}

#[test]
fn phim_macos_khong_co_thi_tra_none() {
    for code in [
        KeyCode::Insert,
        KeyCode::PrintScreen,
        KeyCode::ScrollLock,
        KeyCode::Pause,
        KeyCode::ContextMenu,
    ] {
        assert_eq!(virtual_key(code), None, "{code:?}");
    }
}

#[test]
fn modifier_trai_phai_cung_mot_co() {
    assert_eq!(
        modifier_flag(KeyCode::ShiftLeft),
        modifier_flag(KeyCode::ShiftRight)
    );
    assert_eq!(
        modifier_flag(KeyCode::MetaLeft),
        modifier_flag(KeyCode::MetaRight)
    );
    assert_eq!(modifier_flag(KeyCode::A), None);
}

const ALL: &[KeyCode] = &[
    KeyCode::A, KeyCode::B, KeyCode::C, KeyCode::D, KeyCode::E, KeyCode::F,
    KeyCode::G, KeyCode::H, KeyCode::I, KeyCode::J, KeyCode::K, KeyCode::L,
    KeyCode::M, KeyCode::N, KeyCode::O, KeyCode::P, KeyCode::Q, KeyCode::R,
    KeyCode::S, KeyCode::T, KeyCode::U, KeyCode::V, KeyCode::W, KeyCode::X,
    KeyCode::Y, KeyCode::Z,
    KeyCode::Digit0, KeyCode::Digit1, KeyCode::Digit2, KeyCode::Digit3,
    KeyCode::Digit4, KeyCode::Digit5, KeyCode::Digit6, KeyCode::Digit7,
    KeyCode::Digit8, KeyCode::Digit9,
    KeyCode::F1, KeyCode::F2, KeyCode::F3, KeyCode::F4, KeyCode::F5, KeyCode::F6,
    KeyCode::F7, KeyCode::F8, KeyCode::F9, KeyCode::F10, KeyCode::F11, KeyCode::F12,
    KeyCode::Escape, KeyCode::Tab, KeyCode::CapsLock, KeyCode::Space,
    KeyCode::Backspace, KeyCode::Enter,
    KeyCode::ShiftLeft, KeyCode::ShiftRight, KeyCode::ControlLeft,
    KeyCode::ControlRight, KeyCode::AltLeft, KeyCode::AltRight,
    KeyCode::MetaLeft, KeyCode::MetaRight,
    KeyCode::ArrowUp, KeyCode::ArrowDown, KeyCode::ArrowLeft, KeyCode::ArrowRight,
    KeyCode::Insert, KeyCode::Delete, KeyCode::Home, KeyCode::End,
    KeyCode::PageUp, KeyCode::PageDown,
    KeyCode::Minus, KeyCode::Equal, KeyCode::BracketLeft, KeyCode::BracketRight,
    KeyCode::Backslash, KeyCode::Semicolon, KeyCode::Quote, KeyCode::Backquote,
    KeyCode::Comma, KeyCode::Period, KeyCode::Slash,
    KeyCode::Numpad0, KeyCode::Numpad1, KeyCode::Numpad2, KeyCode::Numpad3,
    KeyCode::Numpad4, KeyCode::Numpad5, KeyCode::Numpad6, KeyCode::Numpad7,
    KeyCode::Numpad8, KeyCode::Numpad9,
    KeyCode::NumpadAdd, KeyCode::NumpadSubtract, KeyCode::NumpadMultiply,
    KeyCode::NumpadDivide, KeyCode::NumpadDecimal, KeyCode::NumpadEnter,
    KeyCode::NumLock,
    KeyCode::PrintScreen, KeyCode::ScrollLock, KeyCode::Pause, KeyCode::ContextMenu,
];

#[test]
fn keymap_windows_khong_co_hai_phim_trung_ma() {
    let mut seen: Vec<(PhysicalKey, KeyCode)> = Vec::new();
    for code in ALL {
        let key = physical_key(*code);
        if let Some((_, other)) = seen.iter().find(|(existing, _)| *existing == key) {
            panic!("{code:?} và {other:?} cùng ra {key:?}");
        }
        seen.push((key, *code));
    }
    assert_eq!(seen.len(), ALL.len());
}

#[test]
fn phim_mo_rong_dung_chung_ma_voi_phim_thuong() {
    let enter = physical_key(KeyCode::Enter);
    let numpad_enter = physical_key(KeyCode::NumpadEnter);
    assert_eq!(
        enter,
        PhysicalKey::Scan {
            code: 0x1C,
            extended: false
        }
    );
    assert_eq!(
        numpad_enter,
        PhysicalKey::Scan {
            code: 0x1C,
            extended: true
        }
    );

    assert_eq!(
        physical_key(KeyCode::ArrowUp),
        PhysicalKey::Scan {
            code: 0x48,
            extended: true
        }
    );
    assert_eq!(
        physical_key(KeyCode::Numpad8),
        PhysicalKey::Scan {
            code: 0x48,
            extended: false
        }
    );
}

#[test]
fn modifier_trai_phai_khac_nhau() {
    for (left, right) in [
        (KeyCode::ControlLeft, KeyCode::ControlRight),
        (KeyCode::AltLeft, KeyCode::AltRight),
        (KeyCode::ShiftLeft, KeyCode::ShiftRight),
        (KeyCode::MetaLeft, KeyCode::MetaRight),
    ] {
        assert_ne!(physical_key(left), physical_key(right), "{left:?}");
    }
}

#[test]
fn pause_di_duong_ma_phim_ao() {
    assert_eq!(physical_key(KeyCode::Pause), PhysicalKey::Virtual(VK_PAUSE));
}
