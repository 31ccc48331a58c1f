//! [`KeyCode`] to the virtual key codes of macOS.
//!
//! The numbers are the `kVK_*` of `Carbon/HIToolbox/Events.h`. They name the place of a key, not
//! its character, so the host presses the right key whatever layouts the two ends use.

use vstd::prelude::*;

use crate::protocol::control::KeyCode;

verus! {

/// The code of a key; `None` for those that no Apple keyboard has. In the place of NumLock stands
/// Clear.
pub open spec fn mac_key(code: KeyCode) -> Option<u16> {
    match code {
        KeyCode::A => Some(0),
        KeyCode::S => Some(1),
        KeyCode::D => Some(2),
        KeyCode::F => Some(3),
        KeyCode::H => Some(4),
        KeyCode::G => Some(5),
        KeyCode::Z => Some(6),
        KeyCode::X => Some(7),
        KeyCode::C => Some(8),
        KeyCode::V => Some(9),
        KeyCode::B => Some(11),
        KeyCode::Q => Some(12),
        KeyCode::W => Some(13),
        KeyCode::E => Some(14),
        KeyCode::R => Some(15),
        KeyCode::Y => Some(16),
        KeyCode::T => Some(17),
        KeyCode::Digit1 => Some(18),
        KeyCode::Digit2 => Some(19),
        KeyCode::Digit3 => Some(20),
        KeyCode::Digit4 => Some(21),
        KeyCode::Digit6 => Some(22),
        KeyCode::Digit5 => Some(23),
        KeyCode::Equal => Some(24),
        KeyCode::Digit9 => Some(25),
        KeyCode::Digit7 => Some(26),
        KeyCode::Minus => Some(27),
        KeyCode::Digit8 => Some(28),
        KeyCode::Digit0 => Some(29),
        KeyCode::BracketRight => Some(30),
        KeyCode::O => Some(31),
        KeyCode::U => Some(32),
        KeyCode::BracketLeft => Some(33),
        KeyCode::I => Some(34),
        KeyCode::P => Some(35),
        KeyCode::Enter => Some(36),
        KeyCode::L => Some(37),
        KeyCode::J => Some(38),
        KeyCode::Quote => Some(39),
        KeyCode::K => Some(40),
        KeyCode::Semicolon => Some(41),
        KeyCode::Backslash => Some(42),
        KeyCode::Comma => Some(43),
        KeyCode::Slash => Some(44),
        KeyCode::N => Some(45),
        KeyCode::M => Some(46),
        KeyCode::Period => Some(47),
        KeyCode::Tab => Some(48),
        KeyCode::Space => Some(49),
        KeyCode::Backquote => Some(50),
        KeyCode::Backspace => Some(51),
        KeyCode::Escape => Some(53),
        KeyCode::MetaLeft => Some(55),
        KeyCode::ShiftLeft => Some(56),
        KeyCode::CapsLock => Some(57),
        KeyCode::AltLeft => Some(58),
        KeyCode::ControlLeft => Some(59),
        KeyCode::MetaRight => Some(54),
        KeyCode::ShiftRight => Some(60),
        KeyCode::AltRight => Some(61),
        KeyCode::ControlRight => Some(62),
        KeyCode::NumpadDecimal => Some(65),
        KeyCode::NumpadMultiply => Some(67),
        KeyCode::NumpadAdd => Some(69),
        KeyCode::NumLock => Some(71),
        KeyCode::NumpadDivide => Some(75),
        KeyCode::NumpadEnter => Some(76),
        KeyCode::NumpadSubtract => Some(78),
        KeyCode::Numpad0 => Some(82),
        KeyCode::Numpad1 => Some(83),
        KeyCode::Numpad2 => Some(84),
        KeyCode::Numpad3 => Some(85),
        KeyCode::Numpad4 => Some(86),
        KeyCode::Numpad5 => Some(87),
        KeyCode::Numpad6 => Some(88),
        KeyCode::Numpad7 => Some(89),
        KeyCode::Numpad8 => Some(91),
        KeyCode::Numpad9 => Some(92),
        KeyCode::F1 => Some(122),
        KeyCode::F2 => Some(120),
        KeyCode::F3 => Some(99),
        KeyCode::F4 => Some(118),
        KeyCode::F5 => Some(96),
        KeyCode::F6 => Some(97),
        KeyCode::F7 => Some(98),
        KeyCode::F8 => Some(100),
        KeyCode::F9 => Some(101),
        KeyCode::F10 => Some(109),
        KeyCode::F11 => Some(103),
        KeyCode::F12 => Some(111),
        KeyCode::Home => Some(115),
        KeyCode::PageUp => Some(116),
        KeyCode::Delete => Some(117),
        KeyCode::End => Some(119),
        KeyCode::PageDown => Some(121),
        KeyCode::ArrowLeft => Some(123),
        KeyCode::ArrowRight => Some(124),
        KeyCode::ArrowDown => Some(125),
        KeyCode::ArrowUp => Some(126),
        KeyCode::Insert
        | KeyCode::PrintScreen
        | KeyCode::ScrollLock
        | KeyCode::Pause
        | KeyCode::ContextMenu => None,
    }
}

pub fn virtual_key(code: KeyCode) -> (r: Option<u16>)
    ensures
        r == mac_key(code),
{
    match code {
        KeyCode::A => Some(0),
        KeyCode::S => Some(1),
        KeyCode::D => Some(2),
        KeyCode::F => Some(3),
        KeyCode::H => Some(4),
        KeyCode::G => Some(5),
        KeyCode::Z => Some(6),
        KeyCode::X => Some(7),
        KeyCode::C => Some(8),
        KeyCode::V => Some(9),
        KeyCode::B => Some(11),
        KeyCode::Q => Some(12),
        KeyCode::W => Some(13),
        KeyCode::E => Some(14),
        KeyCode::R => Some(15),
        KeyCode::Y => Some(16),
        KeyCode::T => Some(17),
        KeyCode::Digit1 => Some(18),
        KeyCode::Digit2 => Some(19),
        KeyCode::Digit3 => Some(20),
        KeyCode::Digit4 => Some(21),
        KeyCode::Digit6 => Some(22),
        KeyCode::Digit5 => Some(23),
        KeyCode::Equal => Some(24),
        KeyCode::Digit9 => Some(25),
        KeyCode::Digit7 => Some(26),
        KeyCode::Minus => Some(27),
        KeyCode::Digit8 => Some(28),
        KeyCode::Digit0 => Some(29),
        KeyCode::BracketRight => Some(30),
        KeyCode::O => Some(31),
        KeyCode::U => Some(32),
        KeyCode::BracketLeft => Some(33),
        KeyCode::I => Some(34),
        KeyCode::P => Some(35),
        KeyCode::Enter => Some(36),
        KeyCode::L => Some(37),
        KeyCode::J => Some(38),
        KeyCode::Quote => Some(39),
        KeyCode::K => Some(40),
        KeyCode::Semicolon => Some(41),
        KeyCode::Backslash => Some(42),
        KeyCode::Comma => Some(43),
        KeyCode::Slash => Some(44),
        KeyCode::N => Some(45),
        KeyCode::M => Some(46),
        KeyCode::Period => Some(47),
        KeyCode::Tab => Some(48),
        KeyCode::Space => Some(49),
        KeyCode::Backquote => Some(50),
        KeyCode::Backspace => Some(51),
        KeyCode::Escape => Some(53),
        KeyCode::MetaLeft => Some(55),
        KeyCode::ShiftLeft => Some(56),
        KeyCode::CapsLock => Some(57),
        KeyCode::AltLeft => Some(58),
        KeyCode::ControlLeft => Some(59),
        KeyCode::MetaRight => Some(54),
        KeyCode::ShiftRight => Some(60),
        KeyCode::AltRight => Some(61),
        KeyCode::ControlRight => Some(62),
        KeyCode::NumpadDecimal => Some(65),
        KeyCode::NumpadMultiply => Some(67),
        KeyCode::NumpadAdd => Some(69),
        KeyCode::NumLock => Some(71),
        KeyCode::NumpadDivide => Some(75),
        KeyCode::NumpadEnter => Some(76),
        KeyCode::NumpadSubtract => Some(78),
        KeyCode::Numpad0 => Some(82),
        KeyCode::Numpad1 => Some(83),
        KeyCode::Numpad2 => Some(84),
        KeyCode::Numpad3 => Some(85),
        KeyCode::Numpad4 => Some(86),
        KeyCode::Numpad5 => Some(87),
        KeyCode::Numpad6 => Some(88),
        KeyCode::Numpad7 => Some(89),
        KeyCode::Numpad8 => Some(91),
        KeyCode::Numpad9 => Some(92),
        KeyCode::F1 => Some(122),
        KeyCode::F2 => Some(120),
        KeyCode::F3 => Some(99),
        KeyCode::F4 => Some(118),
        KeyCode::F5 => Some(96),
        KeyCode::F6 => Some(97),
        KeyCode::F7 => Some(98),
        KeyCode::F8 => Some(100),
        KeyCode::F9 => Some(101),
        KeyCode::F10 => Some(109),
        KeyCode::F11 => Some(103),
        KeyCode::F12 => Some(111),
        KeyCode::Home => Some(115),
        KeyCode::PageUp => Some(116),
        KeyCode::Delete => Some(117),
        KeyCode::End => Some(119),
        KeyCode::PageDown => Some(121),
        KeyCode::ArrowLeft => Some(123),
        KeyCode::ArrowRight => Some(124),
        KeyCode::ArrowDown => Some(125),
        KeyCode::ArrowUp => Some(126),
        KeyCode::Insert
        | KeyCode::PrintScreen
        | KeyCode::ScrollLock
        | KeyCode::Pause
        | KeyCode::ContextMenu => None,
    }
}

/// The key that a code stands for.
pub open spec fn key_of(vk: u16) -> Option<KeyCode> {
    if vk == 0 {
        Some(KeyCode::A)
    } else if vk == 1 {
        Some(KeyCode::S)
    } else if vk == 2 {
        Some(KeyCode::D)
    } else if vk == 3 {
        Some(KeyCode::F)
    } else if vk == 4 {
        Some(KeyCode::H)
    } else if vk == 5 {
        Some(KeyCode::G)
    } else if vk == 6 {
        Some(KeyCode::Z)
    } else if vk == 7 {
        Some(KeyCode::X)
    } else if vk == 8 {
        Some(KeyCode::C)
    } else if vk == 9 {
        Some(KeyCode::V)
    } else if vk == 11 {
        Some(KeyCode::B)
    } else if vk == 12 {
        Some(KeyCode::Q)
    } else if vk == 13 {
        Some(KeyCode::W)
    } else if vk == 14 {
        Some(KeyCode::E)
    } else if vk == 15 {
        Some(KeyCode::R)
    } else if vk == 16 {
        Some(KeyCode::Y)
    } else if vk == 17 {
        Some(KeyCode::T)
    } else if vk == 18 {
        Some(KeyCode::Digit1)
    } else if vk == 19 {
        Some(KeyCode::Digit2)
    } else if vk == 20 {
        Some(KeyCode::Digit3)
    } else if vk == 21 {
        Some(KeyCode::Digit4)
    } else if vk == 22 {
        Some(KeyCode::Digit6)
    } else if vk == 23 {
        Some(KeyCode::Digit5)
    } else if vk == 24 {
        Some(KeyCode::Equal)
    } else if vk == 25 {
        Some(KeyCode::Digit9)
    } else if vk == 26 {
        Some(KeyCode::Digit7)
    } else if vk == 27 {
        Some(KeyCode::Minus)
    } else if vk == 28 {
        Some(KeyCode::Digit8)
    } else if vk == 29 {
        Some(KeyCode::Digit0)
    } else if vk == 30 {
        Some(KeyCode::BracketRight)
    } else if vk == 31 {
        Some(KeyCode::O)
    } else if vk == 32 {
        Some(KeyCode::U)
    } else if vk == 33 {
        Some(KeyCode::BracketLeft)
    } else if vk == 34 {
        Some(KeyCode::I)
    } else if vk == 35 {
        Some(KeyCode::P)
    } else if vk == 36 {
        Some(KeyCode::Enter)
    } else if vk == 37 {
        Some(KeyCode::L)
    } else if vk == 38 {
        Some(KeyCode::J)
    } else if vk == 39 {
        Some(KeyCode::Quote)
    } else if vk == 40 {
        Some(KeyCode::K)
    } else if vk == 41 {
        Some(KeyCode::Semicolon)
    } else if vk == 42 {
        Some(KeyCode::Backslash)
    } else if vk == 43 {
        Some(KeyCode::Comma)
    } else if vk == 44 {
        Some(KeyCode::Slash)
    } else if vk == 45 {
        Some(KeyCode::N)
    } else if vk == 46 {
        Some(KeyCode::M)
    } else if vk == 47 {
        Some(KeyCode::Period)
    } else if vk == 48 {
        Some(KeyCode::Tab)
    } else if vk == 49 {
        Some(KeyCode::Space)
    } else if vk == 50 {
        Some(KeyCode::Backquote)
    } else if vk == 51 {
        Some(KeyCode::Backspace)
    } else if vk == 53 {
        Some(KeyCode::Escape)
    } else if vk == 55 {
        Some(KeyCode::MetaLeft)
    } else if vk == 56 {
        Some(KeyCode::ShiftLeft)
    } else if vk == 57 {
        Some(KeyCode::CapsLock)
    } else if vk == 58 {
        Some(KeyCode::AltLeft)
    } else if vk == 59 {
        Some(KeyCode::ControlLeft)
    } else if vk == 54 {
        Some(KeyCode::MetaRight)
    } else if vk == 60 {
        Some(KeyCode::ShiftRight)
    } else if vk == 61 {
        Some(KeyCode::AltRight)
    } else if vk == 62 {
        Some(KeyCode::ControlRight)
    } else if vk == 65 {
        Some(KeyCode::NumpadDecimal)
    } else if vk == 67 {
        Some(KeyCode::NumpadMultiply)
    } else if vk == 69 {
        Some(KeyCode::NumpadAdd)
    } else if vk == 71 {
        Some(KeyCode::NumLock)
    } else if vk == 75 {
        Some(KeyCode::NumpadDivide)
    } else if vk == 76 {
        Some(KeyCode::NumpadEnter)
    } else if vk == 78 {
        Some(KeyCode::NumpadSubtract)
    } else if vk == 82 {
        Some(KeyCode::Numpad0)
    } else if vk == 83 {
        Some(KeyCode::Numpad1)
    } else if vk == 84 {
        Some(KeyCode::Numpad2)
    } else if vk == 85 {
        Some(KeyCode::Numpad3)
    } else if vk == 86 {
        Some(KeyCode::Numpad4)
    } else if vk == 87 {
        Some(KeyCode::Numpad5)
    } else if vk == 88 {
        Some(KeyCode::Numpad6)
    } else if vk == 89 {
        Some(KeyCode::Numpad7)
    } else if vk == 91 {
        Some(KeyCode::Numpad8)
    } else if vk == 92 {
        Some(KeyCode::Numpad9)
    } else if vk == 122 {
        Some(KeyCode::F1)
    } else if vk == 120 {
        Some(KeyCode::F2)
    } else if vk == 99 {
        Some(KeyCode::F3)
    } else if vk == 118 {
        Some(KeyCode::F4)
    } else if vk == 96 {
        Some(KeyCode::F5)
    } else if vk == 97 {
        Some(KeyCode::F6)
    } else if vk == 98 {
        Some(KeyCode::F7)
    } else if vk == 100 {
        Some(KeyCode::F8)
    } else if vk == 101 {
        Some(KeyCode::F9)
    } else if vk == 109 {
        Some(KeyCode::F10)
    } else if vk == 103 {
        Some(KeyCode::F11)
    } else if vk == 111 {
        Some(KeyCode::F12)
    } else if vk == 115 {
        Some(KeyCode::Home)
    } else if vk == 116 {
        Some(KeyCode::PageUp)
    } else if vk == 117 {
        Some(KeyCode::Delete)
    } else if vk == 119 {
        Some(KeyCode::End)
    } else if vk == 121 {
        Some(KeyCode::PageDown)
    } else if vk == 123 {
        Some(KeyCode::ArrowLeft)
    } else if vk == 124 {
        Some(KeyCode::ArrowRight)
    } else if vk == 125 {
        Some(KeyCode::ArrowDown)
    } else if vk == 126 {
        Some(KeyCode::ArrowUp)
    } else {
        None
    }
}

/// No two keys share a code.
pub proof fn codes_are_distinct(a: KeyCode, b: KeyCode)
    requires
        mac_key(a) is Some,
        mac_key(a) == mac_key(b),
    ensures
        a == b,
{
    assert(key_of(mac_key(a)->0) == Some(a));
    assert(key_of(mac_key(b)->0) == Some(b));
}

/// The event flag that a modifier sets. macOS does not work it out from the keys that are down:
/// every event brings its own flags.
pub open spec fn modifier(code: KeyCode) -> Option<u64> {
    match code {
        KeyCode::ShiftLeft | KeyCode::ShiftRight => Some(131072),
        KeyCode::ControlLeft | KeyCode::ControlRight => Some(262144),
        KeyCode::AltLeft | KeyCode::AltRight => Some(524288),
        KeyCode::MetaLeft | KeyCode::MetaRight => Some(1048576),
        KeyCode::CapsLock => Some(65536),
        _ => None,
    }
}

pub fn modifier_flag(code: KeyCode) -> (r: Option<u64>)
    ensures
        r == modifier(code),
{
    match code {
        KeyCode::ShiftLeft | KeyCode::ShiftRight => Some(131072),
        KeyCode::ControlLeft | KeyCode::ControlRight => Some(262144),
        KeyCode::AltLeft | KeyCode::AltRight => Some(524288),
        KeyCode::MetaLeft | KeyCode::MetaRight => Some(1048576),
        KeyCode::CapsLock => Some(65536),
        _ => None,
    }
}

/// Keys of the numeric pad whose events carry a flag of their own.
pub open spec fn numpad(code: KeyCode) -> bool {
    ||| code is Numpad0
    ||| code is Numpad1
    ||| code is Numpad2
    ||| code is Numpad3
    ||| code is Numpad4
    ||| code is Numpad5
    ||| code is Numpad6
    ||| code is Numpad7
    ||| code is Numpad8
    ||| code is Numpad9
    ||| code is NumpadAdd
    ||| code is NumpadSubtract
    ||| code is NumpadMultiply
    ||| code is NumpadDivide
    ||| code is NumpadDecimal
}

pub fn is_numpad(code: KeyCode) -> (r: bool)
    ensures
        r == numpad(code),
{
    match code {
        KeyCode::Numpad0
        | KeyCode::Numpad1
        | KeyCode::Numpad2
        | KeyCode::Numpad3
        | KeyCode::Numpad4
        | KeyCode::Numpad5
        | KeyCode::Numpad6
        | KeyCode::Numpad7
        | KeyCode::Numpad8
        | KeyCode::Numpad9
        | KeyCode::NumpadAdd
        | KeyCode::NumpadSubtract
        | KeyCode::NumpadMultiply
        | KeyCode::NumpadDivide
        | KeyCode::NumpadDecimal => true,
        _ => false,
    }
}

/// Every key is found again by its code, and only five keys have none: those that no Apple keyboard
/// has.
pub proof fn keys_are_found_by_their_codes(code: KeyCode)
    ensures
        mac_key(code) is None <==> code is Insert || code is PrintScreen || code is ScrollLock
            || code is Pause || code is ContextMenu,
        mac_key(code) matches Some(vk) ==> key_of(vk) == Some(code),
{
}

/// Shift, Control, Option and Command set their flags, on either side of the keyboard, and so does
/// Caps Lock. No other key sets any.
pub proof fn modifiers_set_their_flags(code: KeyCode)
    ensures
        modifier(code) == Some(0x1_0000u64) <==> code is CapsLock,
        modifier(code) == Some(0x2_0000u64) <==> code is ShiftLeft || code is ShiftRight,
        modifier(code) == Some(0x4_0000u64) <==> code is ControlLeft || code is ControlRight,
        modifier(code) == Some(0x8_0000u64) <==> code is AltLeft || code is AltRight,
        modifier(code) == Some(0x10_0000u64) <==> code is MetaLeft || code is MetaRight,
        modifier(code) is Some ==> (mac_key(code) matches Some(vk) && 54 <= vk <= 62),
{
}

/// The keys of the numeric pad are those from 65 to 92, but for Clear and Enter.
pub proof fn the_pad_is_one_block(code: KeyCode)
    ensures
        numpad(code) <==> (mac_key(code) matches Some(vk) && 65 <= vk <= 92 && vk != 71 && vk
            != 76),
{
}

/// A key is looked up by its code, with its flag and whether it is on the pad.
pub proof fn keys_are_looked_up(
    code: KeyCode,
    vk: Option<u16>,
    flag: Option<u64>,
    pad: bool,
)
    requires
        call_ensures(virtual_key, (code,), vk),
        call_ensures(modifier_flag, (code,), flag),
        call_ensures(is_numpad, (code,), pad),
    ensures
        vk matches Some(n) ==> key_of(n) == Some(code),
        vk is None <==> code is Insert || code is PrintScreen || code is ScrollLock || code is Pause
            || code is ContextMenu,
        flag == Some(0x2_0000u64) <==> code is ShiftLeft || code is ShiftRight,
        flag == Some(0x4_0000u64) <==> code is ControlLeft || code is ControlRight,
        pad == numpad(code),
{
    keys_are_found_by_their_codes(code);
    modifiers_set_their_flags(code);
}

} // verus!
