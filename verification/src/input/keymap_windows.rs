//! [`KeyCode`] to the physical keys of Windows.
//!
//! Scan codes are sent, not virtual keys: a virtual key depends on the layout, a scan code names
//! the place. The numbers are Set 1 of the PS/2 scan codes, which USB keyboards still imitate.

use vstd::prelude::*;

use crate::protocol::control::KeyCode;

verus! {

/// How a key is handed to `SendInput`.
#[derive(Debug, Clone, Copy, PartialEq, Eq, Structural)]
pub enum PhysicalKey {
    /// By its place. `extended` is the prefix `E0`, which tells two keys with the same scan code
    /// apart: Enter and the numeric pad's Enter, an arrow and a digit of the pad.
    Scan { code: u16, extended: bool },
    /// By its virtual key. Only for Pause, whose scan code of three bytes fits no event.
    Virtual(u16),
}

/// `VK_PAUSE`.
pub const VK_PAUSE: u16 = 0x13;

pub open spec fn windows_key(code: KeyCode) -> PhysicalKey {
    match code {
        KeyCode::NumpadEnter => PhysicalKey::Scan { code: 0x1C, extended: true },
        KeyCode::ControlRight => PhysicalKey::Scan { code: 0x1D, extended: true },
        KeyCode::NumpadDivide => PhysicalKey::Scan { code: 0x35, extended: true },
        KeyCode::PrintScreen => PhysicalKey::Scan { code: 0x37, extended: true },
        KeyCode::AltRight => PhysicalKey::Scan { code: 0x38, extended: true },
        KeyCode::Home => PhysicalKey::Scan { code: 0x47, extended: true },
        KeyCode::ArrowUp => PhysicalKey::Scan { code: 0x48, extended: true },
        KeyCode::PageUp => PhysicalKey::Scan { code: 0x49, extended: true },
        KeyCode::ArrowLeft => PhysicalKey::Scan { code: 0x4B, extended: true },
        KeyCode::ArrowRight => PhysicalKey::Scan { code: 0x4D, extended: true },
        KeyCode::End => PhysicalKey::Scan { code: 0x4F, extended: true },
        KeyCode::ArrowDown => PhysicalKey::Scan { code: 0x50, extended: true },
        KeyCode::PageDown => PhysicalKey::Scan { code: 0x51, extended: true },
        KeyCode::Insert => PhysicalKey::Scan { code: 0x52, extended: true },
        KeyCode::Delete => PhysicalKey::Scan { code: 0x53, extended: true },
        KeyCode::MetaLeft => PhysicalKey::Scan { code: 0x5B, extended: true },
        KeyCode::MetaRight => PhysicalKey::Scan { code: 0x5C, extended: true },
        KeyCode::ContextMenu => PhysicalKey::Scan { code: 0x5D, extended: true },
        KeyCode::Escape => PhysicalKey::Scan { code: 0x01, extended: false },
        KeyCode::Digit1 => PhysicalKey::Scan { code: 0x02, extended: false },
        KeyCode::Digit2 => PhysicalKey::Scan { code: 0x03, extended: false },
        KeyCode::Digit3 => PhysicalKey::Scan { code: 0x04, extended: false },
        KeyCode::Digit4 => PhysicalKey::Scan { code: 0x05, extended: false },
        KeyCode::Digit5 => PhysicalKey::Scan { code: 0x06, extended: false },
        KeyCode::Digit6 => PhysicalKey::Scan { code: 0x07, extended: false },
        KeyCode::Digit7 => PhysicalKey::Scan { code: 0x08, extended: false },
        KeyCode::Digit8 => PhysicalKey::Scan { code: 0x09, extended: false },
        KeyCode::Digit9 => PhysicalKey::Scan { code: 0x0A, extended: false },
        KeyCode::Digit0 => PhysicalKey::Scan { code: 0x0B, extended: false },
        KeyCode::Minus => PhysicalKey::Scan { code: 0x0C, extended: false },
        KeyCode::Equal => PhysicalKey::Scan { code: 0x0D, extended: false },
        KeyCode::Backspace => PhysicalKey::Scan { code: 0x0E, extended: false },
        KeyCode::Tab => PhysicalKey::Scan { code: 0x0F, extended: false },
        KeyCode::Q => PhysicalKey::Scan { code: 0x10, extended: false },
        KeyCode::W => PhysicalKey::Scan { code: 0x11, extended: false },
        KeyCode::E => PhysicalKey::Scan { code: 0x12, extended: false },
        KeyCode::R => PhysicalKey::Scan { code: 0x13, extended: false },
        KeyCode::T => PhysicalKey::Scan { code: 0x14, extended: false },
        KeyCode::Y => PhysicalKey::Scan { code: 0x15, extended: false },
        KeyCode::U => PhysicalKey::Scan { code: 0x16, extended: false },
        KeyCode::I => PhysicalKey::Scan { code: 0x17, extended: false },
        KeyCode::O => PhysicalKey::Scan { code: 0x18, extended: false },
        KeyCode::P => PhysicalKey::Scan { code: 0x19, extended: false },
        KeyCode::BracketLeft => PhysicalKey::Scan { code: 0x1A, extended: false },
        KeyCode::BracketRight => PhysicalKey::Scan { code: 0x1B, extended: false },
        KeyCode::Enter => PhysicalKey::Scan { code: 0x1C, extended: false },
        KeyCode::ControlLeft => PhysicalKey::Scan { code: 0x1D, extended: false },
        KeyCode::A => PhysicalKey::Scan { code: 0x1E, extended: false },
        KeyCode::S => PhysicalKey::Scan { code: 0x1F, extended: false },
        KeyCode::D => PhysicalKey::Scan { code: 0x20, extended: false },
        KeyCode::F => PhysicalKey::Scan { code: 0x21, extended: false },
        KeyCode::G => PhysicalKey::Scan { code: 0x22, extended: false },
        KeyCode::H => PhysicalKey::Scan { code: 0x23, extended: false },
        KeyCode::J => PhysicalKey::Scan { code: 0x24, extended: false },
        KeyCode::K => PhysicalKey::Scan { code: 0x25, extended: false },
        KeyCode::L => PhysicalKey::Scan { code: 0x26, extended: false },
        KeyCode::Semicolon => PhysicalKey::Scan { code: 0x27, extended: false },
        KeyCode::Quote => PhysicalKey::Scan { code: 0x28, extended: false },
        KeyCode::Backquote => PhysicalKey::Scan { code: 0x29, extended: false },
        KeyCode::ShiftLeft => PhysicalKey::Scan { code: 0x2A, extended: false },
        KeyCode::Backslash => PhysicalKey::Scan { code: 0x2B, extended: false },
        KeyCode::Z => PhysicalKey::Scan { code: 0x2C, extended: false },
        KeyCode::X => PhysicalKey::Scan { code: 0x2D, extended: false },
        KeyCode::C => PhysicalKey::Scan { code: 0x2E, extended: false },
        KeyCode::V => PhysicalKey::Scan { code: 0x2F, extended: false },
        KeyCode::B => PhysicalKey::Scan { code: 0x30, extended: false },
        KeyCode::N => PhysicalKey::Scan { code: 0x31, extended: false },
        KeyCode::M => PhysicalKey::Scan { code: 0x32, extended: false },
        KeyCode::Comma => PhysicalKey::Scan { code: 0x33, extended: false },
        KeyCode::Period => PhysicalKey::Scan { code: 0x34, extended: false },
        KeyCode::Slash => PhysicalKey::Scan { code: 0x35, extended: false },
        KeyCode::ShiftRight => PhysicalKey::Scan { code: 0x36, extended: false },
        KeyCode::NumpadMultiply => PhysicalKey::Scan { code: 0x37, extended: false },
        KeyCode::AltLeft => PhysicalKey::Scan { code: 0x38, extended: false },
        KeyCode::Space => PhysicalKey::Scan { code: 0x39, extended: false },
        KeyCode::CapsLock => PhysicalKey::Scan { code: 0x3A, extended: false },
        KeyCode::F1 => PhysicalKey::Scan { code: 0x3B, extended: false },
        KeyCode::F2 => PhysicalKey::Scan { code: 0x3C, extended: false },
        KeyCode::F3 => PhysicalKey::Scan { code: 0x3D, extended: false },
        KeyCode::F4 => PhysicalKey::Scan { code: 0x3E, extended: false },
        KeyCode::F5 => PhysicalKey::Scan { code: 0x3F, extended: false },
        KeyCode::F6 => PhysicalKey::Scan { code: 0x40, extended: false },
        KeyCode::F7 => PhysicalKey::Scan { code: 0x41, extended: false },
        KeyCode::F8 => PhysicalKey::Scan { code: 0x42, extended: false },
        KeyCode::F9 => PhysicalKey::Scan { code: 0x43, extended: false },
        KeyCode::F10 => PhysicalKey::Scan { code: 0x44, extended: false },
        KeyCode::NumLock => PhysicalKey::Scan { code: 0x45, extended: false },
        KeyCode::ScrollLock => PhysicalKey::Scan { code: 0x46, extended: false },
        KeyCode::Numpad7 => PhysicalKey::Scan { code: 0x47, extended: false },
        KeyCode::Numpad8 => PhysicalKey::Scan { code: 0x48, extended: false },
        KeyCode::Numpad9 => PhysicalKey::Scan { code: 0x49, extended: false },
        KeyCode::NumpadSubtract => PhysicalKey::Scan { code: 0x4A, extended: false },
        KeyCode::Numpad4 => PhysicalKey::Scan { code: 0x4B, extended: false },
        KeyCode::Numpad5 => PhysicalKey::Scan { code: 0x4C, extended: false },
        KeyCode::Numpad6 => PhysicalKey::Scan { code: 0x4D, extended: false },
        KeyCode::NumpadAdd => PhysicalKey::Scan { code: 0x4E, extended: false },
        KeyCode::Numpad1 => PhysicalKey::Scan { code: 0x4F, extended: false },
        KeyCode::Numpad2 => PhysicalKey::Scan { code: 0x50, extended: false },
        KeyCode::Numpad3 => PhysicalKey::Scan { code: 0x51, extended: false },
        KeyCode::Numpad0 => PhysicalKey::Scan { code: 0x52, extended: false },
        KeyCode::NumpadDecimal => PhysicalKey::Scan { code: 0x53, extended: false },
        KeyCode::F11 => PhysicalKey::Scan { code: 0x57, extended: false },
        KeyCode::F12 => PhysicalKey::Scan { code: 0x58, extended: false },
        KeyCode::Pause => PhysicalKey::Virtual(VK_PAUSE),
    }
}

pub fn physical_key(code: KeyCode) -> (r: PhysicalKey)
    ensures
        r == windows_key(code),
{
    match code {
        KeyCode::NumpadEnter => PhysicalKey::Scan { code: 0x1C, extended: true },
        KeyCode::ControlRight => PhysicalKey::Scan { code: 0x1D, extended: true },
        KeyCode::NumpadDivide => PhysicalKey::Scan { code: 0x35, extended: true },
        KeyCode::PrintScreen => PhysicalKey::Scan { code: 0x37, extended: true },
        KeyCode::AltRight => PhysicalKey::Scan { code: 0x38, extended: true },
        KeyCode::Home => PhysicalKey::Scan { code: 0x47, extended: true },
        KeyCode::ArrowUp => PhysicalKey::Scan { code: 0x48, extended: true },
        KeyCode::PageUp => PhysicalKey::Scan { code: 0x49, extended: true },
        KeyCode::ArrowLeft => PhysicalKey::Scan { code: 0x4B, extended: true },
        KeyCode::ArrowRight => PhysicalKey::Scan { code: 0x4D, extended: true },
        KeyCode::End => PhysicalKey::Scan { code: 0x4F, extended: true },
        KeyCode::ArrowDown => PhysicalKey::Scan { code: 0x50, extended: true },
        KeyCode::PageDown => PhysicalKey::Scan { code: 0x51, extended: true },
        KeyCode::Insert => PhysicalKey::Scan { code: 0x52, extended: true },
        KeyCode::Delete => PhysicalKey::Scan { code: 0x53, extended: true },
        KeyCode::MetaLeft => PhysicalKey::Scan { code: 0x5B, extended: true },
        KeyCode::MetaRight => PhysicalKey::Scan { code: 0x5C, extended: true },
        KeyCode::ContextMenu => PhysicalKey::Scan { code: 0x5D, extended: true },
        KeyCode::Escape => PhysicalKey::Scan { code: 0x01, extended: false },
        KeyCode::Digit1 => PhysicalKey::Scan { code: 0x02, extended: false },
        KeyCode::Digit2 => PhysicalKey::Scan { code: 0x03, extended: false },
        KeyCode::Digit3 => PhysicalKey::Scan { code: 0x04, extended: false },
        KeyCode::Digit4 => PhysicalKey::Scan { code: 0x05, extended: false },
        KeyCode::Digit5 => PhysicalKey::Scan { code: 0x06, extended: false },
        KeyCode::Digit6 => PhysicalKey::Scan { code: 0x07, extended: false },
        KeyCode::Digit7 => PhysicalKey::Scan { code: 0x08, extended: false },
        KeyCode::Digit8 => PhysicalKey::Scan { code: 0x09, extended: false },
        KeyCode::Digit9 => PhysicalKey::Scan { code: 0x0A, extended: false },
        KeyCode::Digit0 => PhysicalKey::Scan { code: 0x0B, extended: false },
        KeyCode::Minus => PhysicalKey::Scan { code: 0x0C, extended: false },
        KeyCode::Equal => PhysicalKey::Scan { code: 0x0D, extended: false },
        KeyCode::Backspace => PhysicalKey::Scan { code: 0x0E, extended: false },
        KeyCode::Tab => PhysicalKey::Scan { code: 0x0F, extended: false },
        KeyCode::Q => PhysicalKey::Scan { code: 0x10, extended: false },
        KeyCode::W => PhysicalKey::Scan { code: 0x11, extended: false },
        KeyCode::E => PhysicalKey::Scan { code: 0x12, extended: false },
        KeyCode::R => PhysicalKey::Scan { code: 0x13, extended: false },
        KeyCode::T => PhysicalKey::Scan { code: 0x14, extended: false },
        KeyCode::Y => PhysicalKey::Scan { code: 0x15, extended: false },
        KeyCode::U => PhysicalKey::Scan { code: 0x16, extended: false },
        KeyCode::I => PhysicalKey::Scan { code: 0x17, extended: false },
        KeyCode::O => PhysicalKey::Scan { code: 0x18, extended: false },
        KeyCode::P => PhysicalKey::Scan { code: 0x19, extended: false },
        KeyCode::BracketLeft => PhysicalKey::Scan { code: 0x1A, extended: false },
        KeyCode::BracketRight => PhysicalKey::Scan { code: 0x1B, extended: false },
        KeyCode::Enter => PhysicalKey::Scan { code: 0x1C, extended: false },
        KeyCode::ControlLeft => PhysicalKey::Scan { code: 0x1D, extended: false },
        KeyCode::A => PhysicalKey::Scan { code: 0x1E, extended: false },
        KeyCode::S => PhysicalKey::Scan { code: 0x1F, extended: false },
        KeyCode::D => PhysicalKey::Scan { code: 0x20, extended: false },
        KeyCode::F => PhysicalKey::Scan { code: 0x21, extended: false },
        KeyCode::G => PhysicalKey::Scan { code: 0x22, extended: false },
        KeyCode::H => PhysicalKey::Scan { code: 0x23, extended: false },
        KeyCode::J => PhysicalKey::Scan { code: 0x24, extended: false },
        KeyCode::K => PhysicalKey::Scan { code: 0x25, extended: false },
        KeyCode::L => PhysicalKey::Scan { code: 0x26, extended: false },
        KeyCode::Semicolon => PhysicalKey::Scan { code: 0x27, extended: false },
        KeyCode::Quote => PhysicalKey::Scan { code: 0x28, extended: false },
        KeyCode::Backquote => PhysicalKey::Scan { code: 0x29, extended: false },
        KeyCode::ShiftLeft => PhysicalKey::Scan { code: 0x2A, extended: false },
        KeyCode::Backslash => PhysicalKey::Scan { code: 0x2B, extended: false },
        KeyCode::Z => PhysicalKey::Scan { code: 0x2C, extended: false },
        KeyCode::X => PhysicalKey::Scan { code: 0x2D, extended: false },
        KeyCode::C => PhysicalKey::Scan { code: 0x2E, extended: false },
        KeyCode::V => PhysicalKey::Scan { code: 0x2F, extended: false },
        KeyCode::B => PhysicalKey::Scan { code: 0x30, extended: false },
        KeyCode::N => PhysicalKey::Scan { code: 0x31, extended: false },
        KeyCode::M => PhysicalKey::Scan { code: 0x32, extended: false },
        KeyCode::Comma => PhysicalKey::Scan { code: 0x33, extended: false },
        KeyCode::Period => PhysicalKey::Scan { code: 0x34, extended: false },
        KeyCode::Slash => PhysicalKey::Scan { code: 0x35, extended: false },
        KeyCode::ShiftRight => PhysicalKey::Scan { code: 0x36, extended: false },
        KeyCode::NumpadMultiply => PhysicalKey::Scan { code: 0x37, extended: false },
        KeyCode::AltLeft => PhysicalKey::Scan { code: 0x38, extended: false },
        KeyCode::Space => PhysicalKey::Scan { code: 0x39, extended: false },
        KeyCode::CapsLock => PhysicalKey::Scan { code: 0x3A, extended: false },
        KeyCode::F1 => PhysicalKey::Scan { code: 0x3B, extended: false },
        KeyCode::F2 => PhysicalKey::Scan { code: 0x3C, extended: false },
        KeyCode::F3 => PhysicalKey::Scan { code: 0x3D, extended: false },
        KeyCode::F4 => PhysicalKey::Scan { code: 0x3E, extended: false },
        KeyCode::F5 => PhysicalKey::Scan { code: 0x3F, extended: false },
        KeyCode::F6 => PhysicalKey::Scan { code: 0x40, extended: false },
        KeyCode::F7 => PhysicalKey::Scan { code: 0x41, extended: false },
        KeyCode::F8 => PhysicalKey::Scan { code: 0x42, extended: false },
        KeyCode::F9 => PhysicalKey::Scan { code: 0x43, extended: false },
        KeyCode::F10 => PhysicalKey::Scan { code: 0x44, extended: false },
        KeyCode::NumLock => PhysicalKey::Scan { code: 0x45, extended: false },
        KeyCode::ScrollLock => PhysicalKey::Scan { code: 0x46, extended: false },
        KeyCode::Numpad7 => PhysicalKey::Scan { code: 0x47, extended: false },
        KeyCode::Numpad8 => PhysicalKey::Scan { code: 0x48, extended: false },
        KeyCode::Numpad9 => PhysicalKey::Scan { code: 0x49, extended: false },
        KeyCode::NumpadSubtract => PhysicalKey::Scan { code: 0x4A, extended: false },
        KeyCode::Numpad4 => PhysicalKey::Scan { code: 0x4B, extended: false },
        KeyCode::Numpad5 => PhysicalKey::Scan { code: 0x4C, extended: false },
        KeyCode::Numpad6 => PhysicalKey::Scan { code: 0x4D, extended: false },
        KeyCode::NumpadAdd => PhysicalKey::Scan { code: 0x4E, extended: false },
        KeyCode::Numpad1 => PhysicalKey::Scan { code: 0x4F, extended: false },
        KeyCode::Numpad2 => PhysicalKey::Scan { code: 0x50, extended: false },
        KeyCode::Numpad3 => PhysicalKey::Scan { code: 0x51, extended: false },
        KeyCode::Numpad0 => PhysicalKey::Scan { code: 0x52, extended: false },
        KeyCode::NumpadDecimal => PhysicalKey::Scan { code: 0x53, extended: false },
        KeyCode::F11 => PhysicalKey::Scan { code: 0x57, extended: false },
        KeyCode::F12 => PhysicalKey::Scan { code: 0x58, extended: false },
        KeyCode::Pause => PhysicalKey::Virtual(VK_PAUSE),
    }
}

/// The key that a physical key stands for.
pub open spec fn key_of(key: PhysicalKey) -> KeyCode {
    match key {
        PhysicalKey::Virtual(_) => KeyCode::Pause,
        PhysicalKey::Scan { code, extended } => if extended {
            if code == 0x1C {
                KeyCode::NumpadEnter
            } else if code == 0x1D {
                KeyCode::ControlRight
            } else if code == 0x35 {
                KeyCode::NumpadDivide
            } else if code == 0x37 {
                KeyCode::PrintScreen
            } else if code == 0x38 {
                KeyCode::AltRight
            } else if code == 0x47 {
                KeyCode::Home
            } else if code == 0x48 {
                KeyCode::ArrowUp
            } else if code == 0x49 {
                KeyCode::PageUp
            } else if code == 0x4B {
                KeyCode::ArrowLeft
            } else if code == 0x4D {
                KeyCode::ArrowRight
            } else if code == 0x4F {
                KeyCode::End
            } else if code == 0x50 {
                KeyCode::ArrowDown
            } else if code == 0x51 {
                KeyCode::PageDown
            } else if code == 0x52 {
                KeyCode::Insert
            } else if code == 0x53 {
                KeyCode::Delete
            } else if code == 0x5B {
                KeyCode::MetaLeft
            } else if code == 0x5C {
                KeyCode::MetaRight
            } else if code == 0x5D {
                KeyCode::ContextMenu
            } else {
                KeyCode::Pause
            }
        } else {
            if code == 0x01 {
                KeyCode::Escape
            } else if code == 0x02 {
                KeyCode::Digit1
            } else if code == 0x03 {
                KeyCode::Digit2
            } else if code == 0x04 {
                KeyCode::Digit3
            } else if code == 0x05 {
                KeyCode::Digit4
            } else if code == 0x06 {
                KeyCode::Digit5
            } else if code == 0x07 {
                KeyCode::Digit6
            } else if code == 0x08 {
                KeyCode::Digit7
            } else if code == 0x09 {
                KeyCode::Digit8
            } else if code == 0x0A {
                KeyCode::Digit9
            } else if code == 0x0B {
                KeyCode::Digit0
            } else if code == 0x0C {
                KeyCode::Minus
            } else if code == 0x0D {
                KeyCode::Equal
            } else if code == 0x0E {
                KeyCode::Backspace
            } else if code == 0x0F {
                KeyCode::Tab
            } else if code == 0x10 {
                KeyCode::Q
            } else if code == 0x11 {
                KeyCode::W
            } else if code == 0x12 {
                KeyCode::E
            } else if code == 0x13 {
                KeyCode::R
            } else if code == 0x14 {
                KeyCode::T
            } else if code == 0x15 {
                KeyCode::Y
            } else if code == 0x16 {
                KeyCode::U
            } else if code == 0x17 {
                KeyCode::I
            } else if code == 0x18 {
                KeyCode::O
            } else if code == 0x19 {
                KeyCode::P
            } else if code == 0x1A {
                KeyCode::BracketLeft
            } else if code == 0x1B {
                KeyCode::BracketRight
            } else if code == 0x1C {
                KeyCode::Enter
            } else if code == 0x1D {
                KeyCode::ControlLeft
            } else if code == 0x1E {
                KeyCode::A
            } else if code == 0x1F {
                KeyCode::S
            } else if code == 0x20 {
                KeyCode::D
            } else if code == 0x21 {
                KeyCode::F
            } else if code == 0x22 {
                KeyCode::G
            } else if code == 0x23 {
                KeyCode::H
            } else if code == 0x24 {
                KeyCode::J
            } else if code == 0x25 {
                KeyCode::K
            } else if code == 0x26 {
                KeyCode::L
            } else if code == 0x27 {
                KeyCode::Semicolon
            } else if code == 0x28 {
                KeyCode::Quote
            } else if code == 0x29 {
                KeyCode::Backquote
            } else if code == 0x2A {
                KeyCode::ShiftLeft
            } else if code == 0x2B {
                KeyCode::Backslash
            } else if code == 0x2C {
                KeyCode::Z
            } else if code == 0x2D {
                KeyCode::X
            } else if code == 0x2E {
                KeyCode::C
            } else if code == 0x2F {
                KeyCode::V
            } else if code == 0x30 {
                KeyCode::B
            } else if code == 0x31 {
                KeyCode::N
            } else if code == 0x32 {
                KeyCode::M
            } else if code == 0x33 {
                KeyCode::Comma
            } else if code == 0x34 {
                KeyCode::Period
            } else if code == 0x35 {
                KeyCode::Slash
            } else if code == 0x36 {
                KeyCode::ShiftRight
            } else if code == 0x37 {
                KeyCode::NumpadMultiply
            } else if code == 0x38 {
                KeyCode::AltLeft
            } else if code == 0x39 {
                KeyCode::Space
            } else if code == 0x3A {
                KeyCode::CapsLock
            } else if code == 0x3B {
                KeyCode::F1
            } else if code == 0x3C {
                KeyCode::F2
            } else if code == 0x3D {
                KeyCode::F3
            } else if code == 0x3E {
                KeyCode::F4
            } else if code == 0x3F {
                KeyCode::F5
            } else if code == 0x40 {
                KeyCode::F6
            } else if code == 0x41 {
                KeyCode::F7
            } else if code == 0x42 {
                KeyCode::F8
            } else if code == 0x43 {
                KeyCode::F9
            } else if code == 0x44 {
                KeyCode::F10
            } else if code == 0x45 {
                KeyCode::NumLock
            } else if code == 0x46 {
                KeyCode::ScrollLock
            } else if code == 0x47 {
                KeyCode::Numpad7
            } else if code == 0x48 {
                KeyCode::Numpad8
            } else if code == 0x49 {
                KeyCode::Numpad9
            } else if code == 0x4A {
                KeyCode::NumpadSubtract
            } else if code == 0x4B {
                KeyCode::Numpad4
            } else if code == 0x4C {
                KeyCode::Numpad5
            } else if code == 0x4D {
                KeyCode::Numpad6
            } else if code == 0x4E {
                KeyCode::NumpadAdd
            } else if code == 0x4F {
                KeyCode::Numpad1
            } else if code == 0x50 {
                KeyCode::Numpad2
            } else if code == 0x51 {
                KeyCode::Numpad3
            } else if code == 0x52 {
                KeyCode::Numpad0
            } else if code == 0x53 {
                KeyCode::NumpadDecimal
            } else if code == 0x57 {
                KeyCode::F11
            } else if code == 0x58 {
                KeyCode::F12
            } else {
                KeyCode::Pause
            }
        },
    }
}

/// No two keys are handed over alike.
pub proof fn keys_are_distinct(a: KeyCode, b: KeyCode)
    requires
        windows_key(a) == windows_key(b),
    ensures
        a == b,
{
    assert(key_of(windows_key(a)) == a);
    assert(key_of(windows_key(b)) == b);
}

/// Every key is found again by what is handed over for it. All but one go by scan code.
pub proof fn keys_are_found_again(code: KeyCode)
    ensures
        key_of(windows_key(code)) == code,
        windows_key(code) is Virtual <==> code is Pause,
        windows_key(code) matches PhysicalKey::Virtual(vk) ==> vk == 0x13,
{
}

/// The keys that came to the keyboard later share the scan code of an older one and are marked:
/// the pad's Enter and divide, the right Control and Alt, the navigation block, the arrows, the
/// Windows keys, the menu key and Print Screen.
pub proof fn later_keys_are_marked(code: KeyCode)
    ensures
        (windows_key(code) matches PhysicalKey::Scan { extended, .. } && extended) <==> code
            is NumpadEnter || code is NumpadDivide || code is ControlRight || code is AltRight
            || code is Home || code is End || code is PageUp || code is PageDown || code is Insert
            || code is Delete || code is ArrowUp || code is ArrowDown || code is ArrowLeft || code
            is ArrowRight || code is MetaLeft || code is MetaRight || code is ContextMenu || code
            is PrintScreen,
{
}

/// The key that is sent leads back to the key that was asked for.
pub proof fn sent_keys_lead_back(code: KeyCode, r: PhysicalKey)
    requires
        call_ensures(physical_key, (code,), r),
    ensures
        key_of(r) == code,
        r is Virtual <==> code is Pause,
{
    keys_are_found_again(code);
}

} // verus!
