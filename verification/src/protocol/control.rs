//! Messages of the reliable stream: input, quality, chat, clipboard, files, statistics.

use vstd::prelude::*;

use crate::protocol::ProtocolError;

verus! {

#[derive(Debug, Clone, Copy, PartialEq, Eq, Structural)]
pub enum Codec {
    H264,
    Hevc,
    Av1,
}

impl Codec {
    pub open spec fn label(self) -> Seq<char> {
        match self {
            Codec::H264 => "H264"@,
            Codec::Hevc => "Hevc"@,
            Codec::Av1 => "Av1"@,
        }
    }

    /// The codec's name.
    pub fn name(self) -> (r: &'static str)
        ensures
            r@ == self.label(),
    {
        match self {
            Codec::H264 => "H264",
            Codec::Hevc => "Hevc",
            Codec::Av1 => "Av1",
        }
    }

    /// The number that stands for the codec in a video header.
    pub open spec fn code(self) -> u8 {
        match self {
            Codec::H264 => 0,
            Codec::Hevc => 1,
            Codec::Av1 => 2,
        }
    }

    pub fn to_u8(self) -> (r: u8)
        ensures
            r == self.code(),
    {
        match self {
            Codec::H264 => 0,
            Codec::Hevc => 1,
            Codec::Av1 => 2,
        }
    }

    pub fn from_u8(value: u8) -> (r: Result<Self, ProtocolError>)
        ensures
            match r {
                Ok(codec) => codec.code() == value,
                Err(e) => value > 2 && e == ProtocolError::UnknownCodec(value),
            },
    {
        match value {
            0 => Ok(Codec::H264),
            1 => Ok(Codec::Hevc),
            2 => Ok(Codec::Av1),
            other => Err(ProtocolError::UnknownCodec(other)),
        }
    }
}

/// How much colour is kept. 4:4:4 keeps every pixel's own, so letters stay sharp; 4:2:0 keeps a
/// quarter and is lighter on the link.
#[derive(Debug, Clone, Copy, PartialEq, Eq, Structural)]
pub enum ChromaSubsampling {
    Yuv420,
    /// All colour in the vertical direction; the most that Apple's hardware encoder takes.
    Yuv422,
    Yuv444,
}

impl ChromaSubsampling {
    pub open spec fn label(self) -> Seq<char> {
        match self {
            ChromaSubsampling::Yuv420 => "Yuv420"@,
            ChromaSubsampling::Yuv422 => "Yuv422"@,
            ChromaSubsampling::Yuv444 => "Yuv444"@,
        }
    }

    /// The name of the colour format.
    pub fn name(self) -> (r: &'static str)
        ensures
            r@ == self.label(),
    {
        match self {
            ChromaSubsampling::Yuv420 => "Yuv420",
            ChromaSubsampling::Yuv422 => "Yuv422",
            ChromaSubsampling::Yuv444 => "Yuv444",
        }
    }
}

/// A binary32 number by its bit pattern. It is carried, never computed with.
#[derive(Debug, Clone, Copy, PartialEq, Eq, Structural)]
pub struct Real32 {
    pub bits: u32,
}

/// The pattern of 1.0.
pub const ONE_BITS: u32 = 0x3f80_0000;

#[derive(Debug, Clone, PartialEq)]
pub struct MonitorInfo {
    pub id: u8,
    pub name: String,
    pub width: u32,
    pub height: u32,
    /// Scale of the operating system (2.0 on a Retina screen), to place the pointer.
    pub scale: Real32,
    pub refresh_hz: u32,
    pub is_primary: bool,
}

#[derive(Debug, Clone, Copy, PartialEq)]
pub struct QualityRequest {
    pub codec: Codec,
    pub chroma: ChromaSubsampling,
    pub target_bitrate_kbps: u32,
    pub target_fps: u32,
    /// Limit of the longer edge; `None` keeps the native resolution.
    pub max_dimension: Option<u32>,
}

impl Default for QualityRequest {
    /// Sharpness first: HEVC 4:4:4 at the native resolution.
    fn default() -> (r: Self)
        ensures
            r == (QualityRequest {
                codec: Codec::Hevc,
                chroma: ChromaSubsampling::Yuv444,
                target_bitrate_kbps: 30_000,
                target_fps: 60,
                max_dimension: None,
            }),
    {
        QualityRequest {
            codec: Codec::Hevc,
            chroma: ChromaSubsampling::Yuv444,
            target_bitrate_kbps: 30_000,
            target_fps: 60,
            max_dimension: None,
        }
    }
}

#[derive(Debug, Clone, Copy, PartialEq, Eq, Structural)]
pub enum MouseButton {
    Left,
    Right,
    Middle,
    Back,
    Forward,
}

/// A key by its place on the keyboard, whatever layout either end uses.
#[derive(Debug, Clone, Copy, PartialEq, Eq, Structural)]
pub enum KeyCode {
    A, B, C, D, E, F, G, H, I, J, K, L, M,
    N, O, P, Q, R, S, T, U, V, W, X, Y, Z,
    Digit0, Digit1, Digit2, Digit3, Digit4,
    Digit5, Digit6, Digit7, Digit8, Digit9,
    F1, F2, F3, F4, F5, F6, F7, F8, F9, F10, F11, F12,
    Escape, Tab, CapsLock, Space, Backspace, Enter,
    ShiftLeft, ShiftRight, ControlLeft, ControlRight,
    AltLeft, AltRight, MetaLeft, MetaRight,
    ArrowUp, ArrowDown, ArrowLeft, ArrowRight,
    Insert, Delete, Home, End, PageUp, PageDown,
    Minus, Equal, BracketLeft, BracketRight, Backslash,
    Semicolon, Quote, Backquote, Comma, Period, Slash,
    Numpad0, Numpad1, Numpad2, Numpad3, Numpad4,
    Numpad5, Numpad6, Numpad7, Numpad8, Numpad9,
    NumpadAdd, NumpadSubtract, NumpadMultiply, NumpadDivide,
    NumpadDecimal, NumpadEnter, NumLock,
    PrintScreen, ScrollLock, Pause, ContextMenu,
}

impl KeyCode {
    pub open spec fn label(self) -> Seq<char> {
        match self {
            KeyCode::A => "A"@,
            KeyCode::B => "B"@,
            KeyCode::C => "C"@,
            KeyCode::D => "D"@,
            KeyCode::E => "E"@,
            KeyCode::F => "F"@,
            KeyCode::G => "G"@,
            KeyCode::H => "H"@,
            KeyCode::I => "I"@,
            KeyCode::J => "J"@,
            KeyCode::K => "K"@,
            KeyCode::L => "L"@,
            KeyCode::M => "M"@,
            KeyCode::N => "N"@,
            KeyCode::O => "O"@,
            KeyCode::P => "P"@,
            KeyCode::Q => "Q"@,
            KeyCode::R => "R"@,
            KeyCode::S => "S"@,
            KeyCode::T => "T"@,
            KeyCode::U => "U"@,
            KeyCode::V => "V"@,
            KeyCode::W => "W"@,
            KeyCode::X => "X"@,
            KeyCode::Y => "Y"@,
            KeyCode::Z => "Z"@,
            KeyCode::Digit0 => "Digit0"@,
            KeyCode::Digit1 => "Digit1"@,
            KeyCode::Digit2 => "Digit2"@,
            KeyCode::Digit3 => "Digit3"@,
            KeyCode::Digit4 => "Digit4"@,
            KeyCode::Digit5 => "Digit5"@,
            KeyCode::Digit6 => "Digit6"@,
            KeyCode::Digit7 => "Digit7"@,
            KeyCode::Digit8 => "Digit8"@,
            KeyCode::Digit9 => "Digit9"@,
            KeyCode::F1 => "F1"@,
            KeyCode::F2 => "F2"@,
            KeyCode::F3 => "F3"@,
            KeyCode::F4 => "F4"@,
            KeyCode::F5 => "F5"@,
            KeyCode::F6 => "F6"@,
            KeyCode::F7 => "F7"@,
            KeyCode::F8 => "F8"@,
            KeyCode::F9 => "F9"@,
            KeyCode::F10 => "F10"@,
            KeyCode::F11 => "F11"@,
            KeyCode::F12 => "F12"@,
            KeyCode::Escape => "Escape"@,
            KeyCode::Tab => "Tab"@,
            KeyCode::CapsLock => "CapsLock"@,
            KeyCode::Space => "Space"@,
            KeyCode::Backspace => "Backspace"@,
            KeyCode::Enter => "Enter"@,
            KeyCode::ShiftLeft => "ShiftLeft"@,
            KeyCode::ShiftRight => "ShiftRight"@,
            KeyCode::ControlLeft => "ControlLeft"@,
            KeyCode::ControlRight => "ControlRight"@,
            KeyCode::AltLeft => "AltLeft"@,
            KeyCode::AltRight => "AltRight"@,
            KeyCode::MetaLeft => "MetaLeft"@,
            KeyCode::MetaRight => "MetaRight"@,
            KeyCode::ArrowUp => "ArrowUp"@,
            KeyCode::ArrowDown => "ArrowDown"@,
            KeyCode::ArrowLeft => "ArrowLeft"@,
            KeyCode::ArrowRight => "ArrowRight"@,
            KeyCode::Insert => "Insert"@,
            KeyCode::Delete => "Delete"@,
            KeyCode::Home => "Home"@,
            KeyCode::End => "End"@,
            KeyCode::PageUp => "PageUp"@,
            KeyCode::PageDown => "PageDown"@,
            KeyCode::Minus => "Minus"@,
            KeyCode::Equal => "Equal"@,
            KeyCode::BracketLeft => "BracketLeft"@,
            KeyCode::BracketRight => "BracketRight"@,
            KeyCode::Backslash => "Backslash"@,
            KeyCode::Semicolon => "Semicolon"@,
            KeyCode::Quote => "Quote"@,
            KeyCode::Backquote => "Backquote"@,
            KeyCode::Comma => "Comma"@,
            KeyCode::Period => "Period"@,
            KeyCode::Slash => "Slash"@,
            KeyCode::Numpad0 => "Numpad0"@,
            KeyCode::Numpad1 => "Numpad1"@,
            KeyCode::Numpad2 => "Numpad2"@,
            KeyCode::Numpad3 => "Numpad3"@,
            KeyCode::Numpad4 => "Numpad4"@,
            KeyCode::Numpad5 => "Numpad5"@,
            KeyCode::Numpad6 => "Numpad6"@,
            KeyCode::Numpad7 => "Numpad7"@,
            KeyCode::Numpad8 => "Numpad8"@,
            KeyCode::Numpad9 => "Numpad9"@,
            KeyCode::NumpadAdd => "NumpadAdd"@,
            KeyCode::NumpadSubtract => "NumpadSubtract"@,
            KeyCode::NumpadMultiply => "NumpadMultiply"@,
            KeyCode::NumpadDivide => "NumpadDivide"@,
            KeyCode::NumpadDecimal => "NumpadDecimal"@,
            KeyCode::NumpadEnter => "NumpadEnter"@,
            KeyCode::NumLock => "NumLock"@,
            KeyCode::PrintScreen => "PrintScreen"@,
            KeyCode::ScrollLock => "ScrollLock"@,
            KeyCode::Pause => "Pause"@,
            KeyCode::ContextMenu => "ContextMenu"@,
        }
    }

    /// The key's name.
    pub fn name(self) -> (r: &'static str)
        ensures
            r@ == self.label(),
    {
        match self {
            KeyCode::A => "A",
            KeyCode::B => "B",
            KeyCode::C => "C",
            KeyCode::D => "D",
            KeyCode::E => "E",
            KeyCode::F => "F",
            KeyCode::G => "G",
            KeyCode::H => "H",
            KeyCode::I => "I",
            KeyCode::J => "J",
            KeyCode::K => "K",
            KeyCode::L => "L",
            KeyCode::M => "M",
            KeyCode::N => "N",
            KeyCode::O => "O",
            KeyCode::P => "P",
            KeyCode::Q => "Q",
            KeyCode::R => "R",
            KeyCode::S => "S",
            KeyCode::T => "T",
            KeyCode::U => "U",
            KeyCode::V => "V",
            KeyCode::W => "W",
            KeyCode::X => "X",
            KeyCode::Y => "Y",
            KeyCode::Z => "Z",
            KeyCode::Digit0 => "Digit0",
            KeyCode::Digit1 => "Digit1",
            KeyCode::Digit2 => "Digit2",
            KeyCode::Digit3 => "Digit3",
            KeyCode::Digit4 => "Digit4",
            KeyCode::Digit5 => "Digit5",
            KeyCode::Digit6 => "Digit6",
            KeyCode::Digit7 => "Digit7",
            KeyCode::Digit8 => "Digit8",
            KeyCode::Digit9 => "Digit9",
            KeyCode::F1 => "F1",
            KeyCode::F2 => "F2",
            KeyCode::F3 => "F3",
            KeyCode::F4 => "F4",
            KeyCode::F5 => "F5",
            KeyCode::F6 => "F6",
            KeyCode::F7 => "F7",
            KeyCode::F8 => "F8",
            KeyCode::F9 => "F9",
            KeyCode::F10 => "F10",
            KeyCode::F11 => "F11",
            KeyCode::F12 => "F12",
            KeyCode::Escape => "Escape",
            KeyCode::Tab => "Tab",
            KeyCode::CapsLock => "CapsLock",
            KeyCode::Space => "Space",
            KeyCode::Backspace => "Backspace",
            KeyCode::Enter => "Enter",
            KeyCode::ShiftLeft => "ShiftLeft",
            KeyCode::ShiftRight => "ShiftRight",
            KeyCode::ControlLeft => "ControlLeft",
            KeyCode::ControlRight => "ControlRight",
            KeyCode::AltLeft => "AltLeft",
            KeyCode::AltRight => "AltRight",
            KeyCode::MetaLeft => "MetaLeft",
            KeyCode::MetaRight => "MetaRight",
            KeyCode::ArrowUp => "ArrowUp",
            KeyCode::ArrowDown => "ArrowDown",
            KeyCode::ArrowLeft => "ArrowLeft",
            KeyCode::ArrowRight => "ArrowRight",
            KeyCode::Insert => "Insert",
            KeyCode::Delete => "Delete",
            KeyCode::Home => "Home",
            KeyCode::End => "End",
            KeyCode::PageUp => "PageUp",
            KeyCode::PageDown => "PageDown",
            KeyCode::Minus => "Minus",
            KeyCode::Equal => "Equal",
            KeyCode::BracketLeft => "BracketLeft",
            KeyCode::BracketRight => "BracketRight",
            KeyCode::Backslash => "Backslash",
            KeyCode::Semicolon => "Semicolon",
            KeyCode::Quote => "Quote",
            KeyCode::Backquote => "Backquote",
            KeyCode::Comma => "Comma",
            KeyCode::Period => "Period",
            KeyCode::Slash => "Slash",
            KeyCode::Numpad0 => "Numpad0",
            KeyCode::Numpad1 => "Numpad1",
            KeyCode::Numpad2 => "Numpad2",
            KeyCode::Numpad3 => "Numpad3",
            KeyCode::Numpad4 => "Numpad4",
            KeyCode::Numpad5 => "Numpad5",
            KeyCode::Numpad6 => "Numpad6",
            KeyCode::Numpad7 => "Numpad7",
            KeyCode::Numpad8 => "Numpad8",
            KeyCode::Numpad9 => "Numpad9",
            KeyCode::NumpadAdd => "NumpadAdd",
            KeyCode::NumpadSubtract => "NumpadSubtract",
            KeyCode::NumpadMultiply => "NumpadMultiply",
            KeyCode::NumpadDivide => "NumpadDivide",
            KeyCode::NumpadDecimal => "NumpadDecimal",
            KeyCode::NumpadEnter => "NumpadEnter",
            KeyCode::NumLock => "NumLock",
            KeyCode::PrintScreen => "PrintScreen",
            KeyCode::ScrollLock => "ScrollLock",
            KeyCode::Pause => "Pause",
            KeyCode::ContextMenu => "ContextMenu",
        }
    }
}

/// Pointer positions run from 0.0 to 1.0 over the screen being watched, so that neither end needs
/// the other's resolution.
#[derive(Debug, Clone, PartialEq)]
pub enum InputEvent {
    MouseMove { monitor: u8, x: Real32, y: Real32 },
    MouseButton { monitor: u8, button: MouseButton, pressed: bool, x: Real32, y: Real32 },
    Scroll { monitor: u8, delta_x: Real32, delta_y: Real32 },
    Key { code: KeyCode, pressed: bool },
    /// Characters from an input method, typed as they are.
    Text { text: String },
    /// Every held key and button goes up. Sent when the viewer loses focus.
    ReleaseAll,
}

#[derive(Debug, Clone, PartialEq)]
pub struct ChatMessage {
    pub from: String,
    pub body: String,
    /// Unix time in milliseconds.
    pub sent_at_ms: u64,
}

#[derive(Debug, Clone, PartialEq)]
pub struct ClipboardText {
    pub text: String,
}

#[derive(Debug, Clone, PartialEq)]
pub struct FileOffer {
    pub transfer_id: u64,
    pub name: String,
    pub size: u64,
    /// BLAKE3 of the whole file, checked after the last byte has come.
    pub hash: [u8; 32],
}

#[derive(Debug, Clone, Copy, PartialEq, Eq, Structural)]
pub struct FileChunkAck {
    pub transfer_id: u64,
    pub received_bytes: u64,
}

/// Viewer to host.
#[derive(Debug, Clone, PartialEq)]
pub enum ViewerCommand {
    Hello {
        version: u16,
        viewer_name: String,
        /// BLAKE3 of the session password that the host shows.
        auth: [u8; 32],
        /// Whether the viewer's graphics card can show 10-bit colour.
        wants_10bit: bool,
        /// Codecs that the viewer can decode, the preferred one first.
        codecs: Vec<Codec>,
    },
    SelectMonitor { monitor: u8 },
    RequestKeyframe { monitor: u8 },
    SetQuality(QualityRequest),
    Input(InputEvent),
    Chat(ChatMessage),
    Clipboard(ClipboardText),
    FileOffer(FileOffer),
    FileAccept { transfer_id: u64 },
    FileReject { transfer_id: u64 },
    FileChunkAck(FileChunkAck),
    /// How the link looks from the viewer.
    Feedback { frames_received: u32, frames_dropped: u32, packets_lost: u32, measured_kbps: u32 },
    Ping { sent_us: u64 },
    Disconnect,
}

/// Host to viewer.
#[derive(Debug, Clone, PartialEq)]
pub enum HostEvent {
    Welcome { version: u16, host_name: String, monitors: Vec<MonitorInfo>, active_monitor: u8 },
    MonitorsChanged { monitors: Vec<MonitorInfo> },
    QualityChanged(QualityRequest),
    Chat(ChatMessage),
    Clipboard(ClipboardText),
    FileOffer(FileOffer),
    FileAccept { transfer_id: u64 },
    FileReject { transfer_id: u64 },
    /// Files go both ways, so both ends report how far they have written.
    FileChunkAck(FileChunkAck),
    Pong { sent_us: u64, host_us: u64 },
    Error { message: String },
}

/// Either direction.
#[derive(Debug, Clone, PartialEq)]
pub enum ControlMessage {
    FromViewer(ViewerCommand),
    FromHost(HostEvent),
}

/// The codecs are numbered 0, 1 and 2 on the wire.
pub proof fn codecs_have_their_numbers(codec: Codec)
    ensures
        codec.code() == 0 <==> codec is H264,
        codec.code() == 1 <==> codec is Hevc,
        codec.code() == 2 <==> codec is Av1,
        codec.code() <= 2,
{
}

/// A codec comes back from its number; a number above two is none, and is named.
pub proof fn codecs_come_back(
    codec: Codec,
    n: u8,
    r: Result<Codec, ProtocolError>,
    any: u8,
    other: Result<Codec, ProtocolError>,
)
    requires
        call_ensures(Codec::to_u8, (codec,), n),
        call_ensures(Codec::from_u8, (n,), r),
        call_ensures(Codec::from_u8, (any,), other),
    ensures
        r == Ok::<Codec, ProtocolError>(codec),
        other is Ok <==> any <= 2,
        other matches Err(e) ==> e == ProtocolError::UnknownCodec(any),
{
}

/// Every codec and every colour format has a name of its own.
pub proof fn names_differ(
    one: Codec,
    two: Codec,
    a: &'static str,
    b: &'static str,
    three: ChromaSubsampling,
    four: ChromaSubsampling,
    c: &'static str,
    d: &'static str,
)
    requires
        call_ensures(Codec::name, (one,), a),
        call_ensures(Codec::name, (two,), b),
        call_ensures(ChromaSubsampling::name, (three,), c),
        call_ensures(ChromaSubsampling::name, (four,), d),
    ensures
        a@ == b@ <==> one == two,
        c@ == d@ <==> three == four,
        one is Hevc ==> a@ == "Hevc"@,
        one is H264 ==> a@ == "H264"@,
        one is Av1 ==> a@ == "Av1"@,
{
    reveal_strlit("H264");
    reveal_strlit("Hevc");
    reveal_strlit("Av1");
    reveal_strlit("Yuv420");
    reveal_strlit("Yuv422");
    reveal_strlit("Yuv444");
    assert("H264"@[1] == '2' && "Hevc"@[1] == 'e' && "Av1"@[1] == 'v');
    assert("Yuv420"@[4] == '2' && "Yuv422"@[4] == '2' && "Yuv444"@[4] == '4');
    assert("Yuv420"@[5] == '0' && "Yuv422"@[5] == '2' && "Yuv444"@[5] == '4');
}

} // verus!
