//! What travels between the two ends.
//!
//! * [`video`]: fixed binary header on unreliable datagrams, the hot path.
//! * [`assembler`]: datagrams back into frames.
//! * [`control`]: the messages of the reliable stream.

use vstd::prelude::*;
use vstd::string::StringExecFns;

use crate::text::{decimal, push_decimal};

pub mod assembler;
pub mod control;
pub mod video;

verus! {

/// A datagram of this size crosses almost every Internet path unfragmented, tunnels counted.
pub const MAX_DATAGRAM_SIZE: usize = 1200;

/// What is left of a datagram behind the video header.
pub const MAX_VIDEO_PAYLOAD: usize = 1180;

/// Two ends of different versions refuse each other in the handshake.
pub const PROTOCOL_VERSION: u16 = 1;

/// Longest clipboard text that is carried over, in bytes.
pub const MAX_CLIPBOARD_TEXT: usize = 262_144;

#[derive(Debug, Clone, PartialEq, Eq)]
pub enum ProtocolError {
    /// Fewer bytes than a video header; the number says how many there were.
    TooShort(usize),
    UnknownPacketKind(u8),
    UnknownCodec(u8),
    /// A control message that could not be decoded, in the decoder's words.
    Decode(String),
    VersionMismatch { ours: u16, theirs: u16 },
}

/// A number below 256 in hexadecimal, without leading zeros.
pub open spec fn hexadecimal(n: nat) -> Seq<char> {
    if n < 16 {
        seq![hex_digit(n as int)]
    } else {
        seq![hex_digit((n / 16) as int), hex_digit((n % 16) as int)]
    }
}

pub open spec fn hex_digit(d: int) -> char {
    if d < 10 {
        crate::text::digit(d)
    } else if d == 10 {
        'a'
    } else if d == 11 {
        'b'
    } else if d == 12 {
        'c'
    } else if d == 13 {
        'd'
    } else if d == 14 {
        'e'
    } else {
        'f'
    }
}

fn hex_digit_of(d: u8) -> (c: char)
    requires
        d < 16,
    ensures
        c == hex_digit(d as int),
{
    match d {
        0 => '0',
        1 => '1',
        2 => '2',
        3 => '3',
        4 => '4',
        5 => '5',
        6 => '6',
        7 => '7',
        8 => '8',
        9 => '9',
        10 => 'a',
        11 => 'b',
        12 => 'c',
        13 => 'd',
        14 => 'e',
        _ => 'f',
    }
}

impl ProtocolError {
    pub open spec fn text(self) -> Seq<char> {
        match self {
            ProtocolError::TooShort(n) => "gói tin quá ngắn: "@ + decimal(n as nat) + " byte"@,
            ProtocolError::UnknownPacketKind(n) => "loại gói không hợp lệ: 0x"@ + hexadecimal(
                n as nat,
            ),
            ProtocolError::UnknownCodec(n) => "codec không hợp lệ: "@ + decimal(n as nat),
            ProtocolError::Decode(reason) => "lỗi giải mã control message: "@ + reason@,
            ProtocolError::VersionMismatch { ours, theirs } =>
                "phiên bản giao thức không khớp: ta "@ + decimal(ours as nat) + ", đối phương "@
                    + decimal(theirs as nat),
        }
    }

    /// The error in words.
    pub fn message(&self) -> (s: String)
        ensures
            s@ == self.text(),
    {
        let mut s: String = String::new();
        match self {
            ProtocolError::TooShort(n) => {
                s.append("gói tin quá ngắn: ");
                push_decimal(&mut s, *n as u64);
                s.append(" byte");
            },
            ProtocolError::UnknownPacketKind(n) => {
                s.append("loại gói không hợp lệ: 0x");
                if *n >= 16 {
                    s.push(hex_digit_of(*n / 16));
                }
                s.push(hex_digit_of(*n % 16));
            },
            ProtocolError::UnknownCodec(n) => {
                s.append("codec không hợp lệ: ");
                push_decimal(&mut s, *n as u64);
            },
            ProtocolError::Decode(reason) => {
                s.append("lỗi giải mã control message: ");
                s.append(reason.as_str());
            },
            ProtocolError::VersionMismatch { ours, theirs } => {
                s.append("phiên bản giao thức không khớp: ta ");
                push_decimal(&mut s, *ours as u64);
                s.append(", đối phương ");
                push_decimal(&mut s, *theirs as u64);
            },
        }
        assert(s@ =~= self.text());
        s
    }
}

/// The value of a hexadecimal digit.
pub open spec fn hex_value(c: char) -> int {
    if '0' <= c && c <= '9' {
        c as u32 - 0x30
    } else {
        c as u32 - 0x61 + 10
    }
}

/// A byte in hexadecimal is one small digit, or two of which the first counts sixteen times.
pub proof fn bytes_read_back(n: nat)
    requires
        n < 256,
    ensures
        n < 16 ==> hexadecimal(n).len() == 1 && hex_value(hexadecimal(n)[0]) == n,
        n >= 16 ==> hexadecimal(n).len() == 2 && 16 * hex_value(hexadecimal(n)[0]) + hex_value(
            hexadecimal(n)[1],
        ) == n,
{
    digit_has_its_value((n % 16) as int);
    digit_has_its_value((n / 16) as int);
}

proof fn digit_has_its_value(d: int)
    requires
        0 <= d < 16,
    ensures
        hex_value(hex_digit(d)) == d,
{
}

/// The words of an error say its number or its reason; of two versions, ours first.
pub proof fn errors_say_their_number(error: &ProtocolError, s: String)
    requires
        call_ensures(ProtocolError::message, (error,), s),
    ensures
        *error matches ProtocolError::TooShort(n) ==> crate::text::says(s@, decimal(n as nat)),
        *error matches ProtocolError::UnknownPacketKind(n) ==> crate::text::says(
            s@,
            hexadecimal(n as nat),
        ),
        *error matches ProtocolError::UnknownCodec(n) ==> crate::text::says(s@, decimal(n as nat)),
        *error matches ProtocolError::Decode(reason) ==> crate::text::says(s@, reason@),
        *error matches ProtocolError::VersionMismatch { ours, theirs } ==> crate::text::says_both(
            s@,
            decimal(ours as nat),
            decimal(theirs as nat),
        ),
{
    let none = Seq::<char>::empty();
    match *error {
        ProtocolError::TooShort(n) => {
            crate::text::parts_are_said(
                "gói tin quá ngắn: "@,
                decimal(n as nat),
                none,
                none,
                " byte"@,
            );
        },
        ProtocolError::UnknownPacketKind(n) => {
            crate::text::parts_are_said(
                "loại gói không hợp lệ: 0x"@,
                hexadecimal(n as nat),
                none,
                none,
                none,
            );
        },
        ProtocolError::UnknownCodec(n) => {
            crate::text::parts_are_said(
                "codec không hợp lệ: "@,
                decimal(n as nat),
                none,
                none,
                none,
            );
        },
        ProtocolError::Decode(reason) => {
            crate::text::parts_are_said(
                "lỗi giải mã control message: "@,
                reason@,
                none,
                none,
                none,
            );
        },
        ProtocolError::VersionMismatch { ours, theirs } => {
            crate::text::parts_are_said(
                "phiên bản giao thức không khớp: ta "@,
                decimal(ours as nat),
                ", đối phương "@,
                decimal(theirs as nat),
                none,
            );
        },
    }
}

} // verus!
