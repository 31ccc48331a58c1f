//! Fixed binary header of a video packet.
//!
//! Twenty bytes, little-endian:
//!
//! ```text
//! offset  size  field
//!  0      1     kind          always 0x01 (video)
//!  1      1     flags         bit 0 keyframe, bit 1 last fragment of the frame
//!  2      1     monitor       index of the screen
//!  3      1     codec         0 H264, 1 HEVC, 2 AV1
//!  4      4     frame_id      counts up, may wrap around
//!  8      2     fragment_idx
//! 10      2     fragment_cnt
//! 12      8     capture_us    microseconds, when the frame was captured
//! ```
//!
//! Every packet carries `capture_us`, so that the viewer knows the latency even where the first
//! packet of a frame is lost.

use bytes::Bytes;
use vstd::prelude::*;
use vstd::slice::slice_subrange;

use crate::protocol::control::Codec;
use crate::protocol::{ProtocolError, MAX_DATAGRAM_SIZE, MAX_VIDEO_PAYLOAD};

verus! {

pub const VIDEO_HEADER_LEN: usize = 20;

pub const PACKET_KIND_VIDEO: u8 = 0x01;

#[derive(Debug, Clone, Copy, PartialEq, Eq, Default, Structural)]
pub struct VideoFlags(pub u8);

impl VideoFlags {
    pub const KEYFRAME: u8 = 0b0000_0001;

    pub const LAST_FRAGMENT: u8 = 0b0000_0010;

    pub open spec fn keyframe(self) -> bool {
        self.0 & 1 != 0
    }

    pub open spec fn last_fragment(self) -> bool {
        self.0 & 2 != 0
    }

    pub fn is_keyframe(self) -> (r: bool)
        ensures
            r == self.keyframe(),
    {
        self.0 & 1 != 0
    }

    pub fn is_last_fragment(self) -> (r: bool)
        ensures
            r == self.last_fragment(),
    {
        self.0 & 2 != 0
    }
}

#[derive(Debug, Clone, Copy, PartialEq, Eq, Structural)]
pub struct VideoHeader {
    pub flags: VideoFlags,
    pub monitor: u8,
    pub codec: Codec,
    pub frame_id: u32,
    pub fragment_idx: u16,
    pub fragment_count: u16,
    pub capture_us: u64,
}


/// The number that bytes spell in little-endian order.
pub open spec fn le_value(s: Seq<u8>) -> nat
    decreases s.len(),
{
    if s.len() == 0 {
        0
    } else {
        s[0] as nat + 256 * le_value(s.drop_first())
    }
}

/// The `n` bytes of a number in little-endian order.
pub open spec fn le_bytes(v: nat, n: nat) -> Seq<u8>
    decreases n,
{
    if n == 0 {
        Seq::empty()
    } else {
        seq![(v % 256) as u8] + le_bytes(v / 256, (n - 1) as nat)
    }
}

/// `256^n`.
pub open spec fn byte_range(n: nat) -> nat
    decreases n,
{
    if n == 0 {
        1
    } else {
        256 * byte_range((n - 1) as nat)
    }
}

/// Little-endian bytes spell the number that they were made from.
pub proof fn le_roundtrip(v: nat, n: nat)
    requires
        v < byte_range(n),
    ensures
        le_bytes(v, n).len() == n,
        le_value(le_bytes(v, n)) == v,
    decreases n,
{
    if n > 0 {
        le_roundtrip(v / 256, (n - 1) as nat);
        assert(le_bytes(v, n).drop_first() =~= le_bytes(v / 256, (n - 1) as nat));
    }
}

impl VideoHeader {
    /// The header on the wire.
    pub open spec fn bytes(self) -> Seq<u8> {
        seq![PACKET_KIND_VIDEO, self.flags.0, self.monitor, self.codec.code()] + le_bytes(
            self.frame_id as nat,
            4,
        ) + le_bytes(self.fragment_idx as nat, 2) + le_bytes(self.fragment_count as nat, 2)
            + le_bytes(self.capture_us as nat, 8)
    }

    /// What the beginning of a packet says.
    pub open spec fn read(buf: Seq<u8>) -> Result<VideoHeader, ProtocolError> {
        if buf.len() < VIDEO_HEADER_LEN {
            Err(ProtocolError::TooShort(buf.len() as usize))
        } else if buf[0] != PACKET_KIND_VIDEO {
            Err(ProtocolError::UnknownPacketKind(buf[0]))
        } else if buf[3] > 2 {
            Err(ProtocolError::UnknownCodec(buf[3]))
        } else {
            Ok(
                VideoHeader {
                    flags: VideoFlags(buf[1]),
                    monitor: buf[2],
                    codec: if buf[3] == 0 {
                        Codec::H264
                    } else if buf[3] == 1 {
                        Codec::Hevc
                    } else {
                        Codec::Av1
                    },
                    frame_id: le_value(buf.subrange(4, 8)) as u32,
                    fragment_idx: le_value(buf.subrange(8, 10)) as u16,
                    fragment_count: le_value(buf.subrange(10, 12)) as u16,
                    capture_us: le_value(buf.subrange(12, 20)) as u64,
                },
            )
        }
    }

    pub fn write_to(&self, out: &mut [u8; 20])
        ensures
            final(out)@ == self.bytes(),
    {
        out[0] = PACKET_KIND_VIDEO;
        out[1] = self.flags.0;
        out[2] = self.monitor;
        out[3] = self.codec.to_u8();
        let id: u32 = self.frame_id;
        out[4] = (id % 256) as u8;
        out[5] = (id / 256 % 256) as u8;
        out[6] = (id / 256 / 256 % 256) as u8;
        out[7] = (id / 256 / 256 / 256 % 256) as u8;
        let idx: u16 = self.fragment_idx;
        out[8] = (idx % 256) as u8;
        out[9] = (idx / 256 % 256) as u8;
        let count: u16 = self.fragment_count;
        out[10] = (count % 256) as u8;
        out[11] = (count / 256 % 256) as u8;
        let us: u64 = self.capture_us;
        out[12] = (us % 256) as u8;
        out[13] = (us / 256 % 256) as u8;
        out[14] = (us / 256 / 256 % 256) as u8;
        out[15] = (us / 256 / 256 / 256 % 256) as u8;
        out[16] = (us / 256 / 256 / 256 / 256 % 256) as u8;
        out[17] = (us / 256 / 256 / 256 / 256 / 256 % 256) as u8;
        out[18] = (us / 256 / 256 / 256 / 256 / 256 / 256 % 256) as u8;
        out[19] = (us / 256 / 256 / 256 / 256 / 256 / 256 / 256 % 256) as u8;
        proof {
            reveal_with_fuel(le_bytes, 9);
            assert(le_bytes(id as nat, 4) =~= out@.subrange(4, 8));
            assert(le_bytes(idx as nat, 2) =~= out@.subrange(8, 10));
            assert(le_bytes(count as nat, 2) =~= out@.subrange(10, 12));
            assert(le_bytes(us as nat, 8) =~= out@.subrange(12, 20));
            assert(out@ =~= self.bytes());
        }
    }

    /// Splits a packet into its header and what follows it.
    pub fn parse(buf: &[u8]) -> (r: Result<(Self, &[u8]), ProtocolError>)
        ensures
            match r {
                Ok((header, rest)) => Self::read(buf@) == Ok::<VideoHeader, ProtocolError>(header)
                    && rest@ == buf@.skip(VIDEO_HEADER_LEN as int),
                Err(e) => Self::read(buf@) == Err::<VideoHeader, ProtocolError>(e),
            },
    {
        if buf.len() < VIDEO_HEADER_LEN {
            return Err(ProtocolError::TooShort(buf.len()));
        }
        if buf[0] != PACKET_KIND_VIDEO {
            return Err(ProtocolError::UnknownPacketKind(buf[0]));
        }
        let codec: Codec = match Codec::from_u8(buf[3]) {
            Ok(codec) => codec,
            Err(e) => return Err(e),
        };
        let header: VideoHeader = VideoHeader {
            flags: VideoFlags(buf[1]),
            monitor: buf[2],
            codec,
            frame_id: le_u32(buf, 4),
            fragment_idx: le_u16(buf, 8),
            fragment_count: le_u16(buf, 10),
            capture_us: le_u64(buf, 12),
        };
        let rest: &[u8] = slice_subrange(buf, VIDEO_HEADER_LEN, buf.len());
        assert(rest@ =~= buf@.skip(VIDEO_HEADER_LEN as int));
        Ok((header, rest))
    }
}

fn le_u16(buf: &[u8], at: usize) -> (v: u16)
    requires
        at + 2 <= buf.len(),
    ensures
        v == le_value(buf@.subrange(at as int, at + 2)),
{
    proof {
        reveal_with_fuel(le_value, 3);
        let s = buf@.subrange(at as int, at + 2);
        assert(s.drop_first()[0] == s[1]);
    }
    buf[at] as u16 + 256 * buf[at + 1] as u16
}

fn le_u32(buf: &[u8], at: usize) -> (v: u32)
    requires
        at + 4 <= buf.len(),
    ensures
        v == le_value(buf@.subrange(at as int, at + 4)),
{
    proof {
        let s = buf@.subrange(at as int, at + 4);
        assert(s.drop_first().drop_first() =~= buf@.subrange(at + 2, at + 4));
        assert(s.drop_first()[0] == s[1]);
        reveal_with_fuel(le_value, 3);
    }
    le_u16_pair(le_u16(buf, at), le_u16(buf, at + 2))
}

fn le_u16_pair(low: u16, high: u16) -> (v: u32)
    ensures
        v == low + 65536 * high,
{
    low as u32 + 65536 * high as u32
}

fn le_u64(buf: &[u8], at: usize) -> (v: u64)
    requires
        at + 8 <= buf.len(),
    ensures
        v == le_value(buf@.subrange(at as int, at + 8)),
{
    proof {
        let s = buf@.subrange(at as int, at + 8);
        let rest = s.drop_first().drop_first().drop_first().drop_first();
        let low = buf@.subrange(at as int, at + 4);
        assert(rest =~= buf@.subrange(at + 4, at + 8));
        assert(s.drop_first()[0] == s[1]);
        assert(s.drop_first().drop_first()[0] == s[2]);
        assert(s.drop_first().drop_first().drop_first()[0] == s[3]);
        assert(low.drop_first()[0] == s[1]);
        assert(low.drop_first().drop_first()[0] == s[2]);
        assert(low.drop_first().drop_first().drop_first()[0] == s[3]);
        reveal_with_fuel(le_value, 5);
    }
    le_u32(buf, at) as u64 + 4_294_967_296 * le_u32(buf, at + 4) as u64
}

/// A header comes back from the wire as it went.
pub proof fn header_roundtrip(header: VideoHeader, body: Seq<u8>)
    ensures
        header.bytes().len() == VIDEO_HEADER_LEN,
        VideoHeader::read(header.bytes() + body) == Ok::<VideoHeader, ProtocolError>(header),
        (header.bytes() + body).skip(VIDEO_HEADER_LEN as int) == body,
{
    let s = header.bytes() + body;
    assert(byte_range(2) == 0x1_0000 && byte_range(4) == 0x1_0000_0000 && byte_range(8)
        == 0x1_0000_0000_0000_0000) by {
        reveal_with_fuel(byte_range, 9);
    }
    le_roundtrip(header.frame_id as nat, 4);
    le_roundtrip(header.fragment_idx as nat, 2);
    le_roundtrip(header.fragment_count as nat, 2);
    le_roundtrip(header.capture_us as nat, 8);
    assert(s.subrange(4, 8) =~= le_bytes(header.frame_id as nat, 4));
    assert(s.subrange(8, 10) =~= le_bytes(header.fragment_idx as nat, 2));
    assert(s.subrange(10, 12) =~= le_bytes(header.fragment_count as nat, 2));
    assert(s.subrange(12, 20) =~= le_bytes(header.capture_us as nat, 8));
    assert(s.skip(VIDEO_HEADER_LEN as int) =~= body);
}

/// [`Bytes`], a cheaply shared run of bytes.
#[verifier::external_type_specification]
#[verifier::external_body]
pub struct ExBytes(Bytes);

/// The bytes that a [`Bytes`] holds.
pub uninterp spec fn bytes_of(b: Bytes) -> Seq<u8>;

/// `Bytes::from(Vec<u8>)`: takes the vector over and holds exactly its bytes.
#[verifier::external_body]
fn shared(v: Vec<u8>) -> (b: Bytes)
    ensures
        bytes_of(b) == v@,
{
    Bytes::from(v)
}

/// How many packets a frame of `len` bytes is cut into.
pub open spec fn fragments(len: nat) -> nat {
    if len == 0 {
        1
    } else {
        ((len + MAX_VIDEO_PAYLOAD - 1) / MAX_VIDEO_PAYLOAD as int) as nat
    }
}

/// The part of a frame that packet `i` carries.
pub open spec fn chunk(encoded: Seq<u8>, i: int) -> Seq<u8> {
    let from = i * MAX_VIDEO_PAYLOAD;
    let to = from + MAX_VIDEO_PAYLOAD;
    encoded.subrange(
        from,
        if to <= encoded.len() {
            to
        } else {
            encoded.len() as int
        },
    )
}

pub open spec fn flag_bits(keyframe: bool, last: bool) -> u8 {
    if keyframe && last {
        3
    } else if last {
        2
    } else if keyframe {
        1
    } else {
        0
    }
}

/// The header of packet `i` of a frame of `len` bytes.
pub open spec fn fragment_header(
    len: nat,
    i: int,
    frame_id: u32,
    monitor: u8,
    codec: Codec,
    keyframe: bool,
    capture_us: u64,
) -> VideoHeader {
    VideoHeader {
        flags: VideoFlags(flag_bits(keyframe, i + 1 == fragments(len))),
        monitor,
        codec,
        frame_id,
        fragment_idx: i as u16,
        fragment_count: fragments(len) as u16,
        capture_us,
    }
}

/// Cuts an encoded frame into packets that fit a datagram, each with its header.
///
/// An empty frame still makes one packet, so that the other end learns of it. A frame takes at
/// most 65535 packets, which is over 77 MB.
pub fn fragment_frame(
    encoded: &[u8],
    frame_id: u32,
    monitor: u8,
    codec: Codec,
    keyframe: bool,
    capture_us: u64,
) -> (packets: Vec<Bytes>)
    requires
        encoded@.len() <= 65535 * MAX_VIDEO_PAYLOAD,
    ensures
        packets@.len() == fragments(encoded@.len()),
        forall|i: int|
            0 <= i < packets@.len() ==> bytes_of(#[trigger] packets@[i]) == fragment_header(
                encoded@.len(),
                i,
                frame_id,
                monitor,
                codec,
                keyframe,
                capture_us,
            ).bytes() + chunk(encoded@, i),
{
    let len: usize = encoded.len();
    let count: usize = if len == 0 {
        1
    } else {
        (len - 1) / MAX_VIDEO_PAYLOAD + 1
    };
    let mut packets: Vec<Bytes> = Vec::with_capacity(count);
    let mut i: usize = 0;
    while i < count
        invariant
            i <= count == fragments(encoded@.len()),
            count <= 65535,
            len == encoded@.len(),
            (count - 1) * MAX_VIDEO_PAYLOAD <= len <= count * MAX_VIDEO_PAYLOAD <= 65535
                * MAX_VIDEO_PAYLOAD,
            packets@.len() == i,
            forall|j: int|
                0 <= j < i ==> bytes_of(#[trigger] packets@[j]) == fragment_header(
                    encoded@.len(),
                    j,
                    frame_id,
                    monitor,
                    codec,
                    keyframe,
                    capture_us,
                ).bytes() + chunk(encoded@, j),
        decreases count - i,
    {
        let mut flags: u8 = 0;
        if keyframe {
            flags = flags | VideoFlags::KEYFRAME;
        }
        if i + 1 == count {
            flags = flags | VideoFlags::LAST_FRAGMENT;
        }
        assert(0u8 | 1u8 == 1u8 && 0u8 | 2u8 == 2u8 && 1u8 | 2u8 == 3u8) by (bit_vector);
        let header: VideoHeader = VideoHeader {
            flags: VideoFlags(flags),
            monitor,
            codec,
            frame_id,
            fragment_idx: i as u16,
            fragment_count: count as u16,
            capture_us,
        };
        let mut head: [u8; 20] = [0; 20];
        header.write_to(&mut head);
        let from: usize = i * MAX_VIDEO_PAYLOAD;
        let to: usize = if len - from <= MAX_VIDEO_PAYLOAD {
            len
        } else {
            from + MAX_VIDEO_PAYLOAD
        };
        let mut packet: Vec<u8> = Vec::with_capacity(VIDEO_HEADER_LEN + (to - from));
        packet.extend_from_slice(&head);
        packet.extend_from_slice(slice_subrange(encoded, from, to));
        assert(packet@ =~= header.bytes() + chunk(encoded@, i as int));
        packets.push(shared(packet));
        i += 1;
    }
    packets
}

/// No packet is larger than a datagram may be.
pub proof fn packets_fit_datagrams(header: VideoHeader, encoded: Seq<u8>, i: int)
    requires
        0 <= i < fragments(encoded.len()),
    ensures
        (header.bytes() + chunk(encoded, i)).len() <= MAX_DATAGRAM_SIZE,
{
    header_roundtrip(header, chunk(encoded, i));
    assert(i * MAX_VIDEO_PAYLOAD <= encoded.len());
}

/// Parts one behind the other.
pub open spec fn joined(parts: Seq<Seq<u8>>) -> Seq<u8>
    decreases parts.len(),
{
    if parts.len() == 0 {
        Seq::empty()
    } else {
        joined(parts.drop_last()) + parts.last()
    }
}

/// The parts that a frame is cut into, in order.
pub open spec fn chunks(encoded: Seq<u8>) -> Seq<Seq<u8>> {
    Seq::new(fragments(encoded.len()), |i: int| chunk(encoded, i))
}

/// The parts of a frame, put together, are the frame.
pub proof fn chunks_cover_frame(encoded: Seq<u8>)
    ensures
        joined(chunks(encoded)) == encoded,
{
    let n = fragments(encoded.len());
    first_chunks(encoded, n as int);
    assert(chunks(encoded).take(n as int) =~= chunks(encoded));
    assert(encoded.take(encoded.len() as int) =~= encoded);
}

proof fn first_chunks(encoded: Seq<u8>, n: int)
    requires
        0 <= n <= fragments(encoded.len()),
    ensures
        joined(chunks(encoded).take(n)) == encoded.take(
            if n * MAX_VIDEO_PAYLOAD <= encoded.len() {
                n * MAX_VIDEO_PAYLOAD
            } else {
                encoded.len() as int
            },
        ),
    decreases n,
{
    let parts = chunks(encoded).take(n);
    if n > 0 {
        first_chunks(encoded, n - 1);
        assert(parts.drop_last() =~= chunks(encoded).take(n - 1));
        assert(parts.last() == chunk(encoded, n - 1));
        assert((n - 1) * MAX_VIDEO_PAYLOAD <= encoded.len());
        assert(joined(parts) =~= encoded.take(
            if n * MAX_VIDEO_PAYLOAD <= encoded.len() {
                n * MAX_VIDEO_PAYLOAD
            } else {
                encoded.len() as int
            },
        ));
    }
}

/// Where each field stands on the wire, the lowest byte of a number first.
pub proof fn fields_have_their_places(header: VideoHeader)
    ensures
        ({
            let b = header.bytes();
            &&& b.len() == 20
            &&& b[0] == 1
            &&& b[1] == header.flags.0
            &&& b[2] == header.monitor
            &&& b[3] as int == match header.codec {
                Codec::H264 => 0int,
                Codec::Hevc => 1,
                Codec::Av1 => 2,
            }
            &&& header.frame_id == b[4] + 0x100 * b[5] + 0x1_0000 * b[6] + 0x100_0000 * b[7]
            &&& header.fragment_idx == b[8] + 0x100 * b[9]
            &&& header.fragment_count == b[10] + 0x100 * b[11]
            &&& header.capture_us == b[12] + 0x100 * b[13] + 0x1_0000 * b[14] + 0x100_0000 * b[15]
                + 0x1_0000_0000 * b[16] + 0x100_0000_0000 * b[17] + 0x1_0000_0000_0000 * b[18]
                + 0x100_0000_0000_0000 * b[19]
        }),
{
    let b = header.bytes();
    header_roundtrip(header, seq![]);
    assert(b + seq![] =~= b);
    spelled(b, header);
}

proof fn spelled(b: Seq<u8>, header: VideoHeader)
    requires
        b.len() >= 20,
        VideoHeader::read(b) == Ok::<VideoHeader, ProtocolError>(header),
    ensures
        header.frame_id == b[4] + 0x100 * b[5] + 0x1_0000 * b[6] + 0x100_0000 * b[7],
        header.fragment_idx == b[8] + 0x100 * b[9],
        header.fragment_count == b[10] + 0x100 * b[11],
        header.capture_us == b[12] + 0x100 * b[13] + 0x1_0000 * b[14] + 0x100_0000 * b[15]
            + 0x1_0000_0000 * b[16] + 0x100_0000_0000 * b[17] + 0x1_0000_0000_0000 * b[18]
            + 0x100_0000_0000_0000 * b[19],
{
    two_bytes(b.subrange(8, 10));
    two_bytes(b.subrange(10, 12));
    four_bytes(b.subrange(4, 8));
    let late = b.subrange(12, 20);
    let tail = late.drop_first().drop_first().drop_first().drop_first();
    assert(tail =~= b.subrange(16, 20));
    four_bytes(b.subrange(16, 20));
    let one = late.drop_first();
    let two = one.drop_first();
    let three = two.drop_first();
    assert(le_value(late) == late[0] + 256 * le_value(one));
    assert(le_value(one) == one[0] + 256 * le_value(two));
    assert(le_value(two) == two[0] + 256 * le_value(three));
    assert(le_value(three) == three[0] + 256 * le_value(tail));
}

proof fn two_bytes(s: Seq<u8>)
    requires
        s.len() == 2,
    ensures
        le_value(s) == s[0] + 0x100 * s[1],
{
    reveal_with_fuel(le_value, 3);
}

proof fn four_bytes(s: Seq<u8>)
    requires
        s.len() == 4,
    ensures
        le_value(s) == s[0] + 0x100 * s[1] + 0x1_0000 * s[2] + 0x100_0000 * s[3],
{
    reveal_with_fuel(le_value, 5);
}

/// What is refused, and why: fewer than 20 bytes, another kind than 1, a codec number above 2, in
/// this order. Everything else is read, each field from its place.
pub proof fn packets_are_read_or_refused(buf: Seq<u8>)
    requires
        buf.len() <= usize::MAX,
    ensures
        match VideoHeader::read(buf) {
            Err(ProtocolError::TooShort(n)) => buf.len() < 20 && n == buf.len(),
            Err(ProtocolError::UnknownPacketKind(kind)) => buf.len() >= 20 && buf[0] != 1 && kind
                == buf[0],
            Err(ProtocolError::UnknownCodec(codec)) => buf.len() >= 20 && buf[0] == 1 && buf[3] > 2
                && codec == buf[3],
            Err(_) => false,
            Ok(header) => {
                &&& buf.len() >= 20
                &&& buf[0] == 1
                &&& header.flags.0 == buf[1]
                &&& header.monitor == buf[2]
                &&& header.codec is H264 <==> buf[3] == 0
                &&& header.codec is Hevc <==> buf[3] == 1
                &&& header.codec is Av1 <==> buf[3] == 2
                &&& header.frame_id == buf[4] + 0x100 * buf[5] + 0x1_0000 * buf[6] + 0x100_0000
                    * buf[7]
                &&& header.fragment_idx == buf[8] + 0x100 * buf[9]
                &&& header.fragment_count == buf[10] + 0x100 * buf[11]
                &&& header.capture_us == buf[12] + 0x100 * buf[13] + 0x1_0000 * buf[14]
                    + 0x100_0000 * buf[15] + 0x1_0000_0000 * buf[16] + 0x100_0000_0000 * buf[17]
                    + 0x1_0000_0000_0000 * buf[18] + 0x100_0000_0000_0000 * buf[19]
            },
        },
{
    if let Ok(header) = VideoHeader::read(buf) {
        spelled(buf, header);
    }
}

/// Bit 0 of the flags is the keyframe, bit 1 the last fragment.
pub proof fn flags_have_their_bits(keyframe: bool, last: bool)
    ensures
        VideoFlags(flag_bits(keyframe, last)).keyframe() == keyframe,
        VideoFlags(flag_bits(keyframe, last)).last_fragment() == last,
        flag_bits(keyframe, last) as int == (if keyframe {
            1int
        } else {
            0
        }) + (if last {
            2int
        } else {
            0
        }),
{
    assert(0u8 & 1 == 0 && 1u8 & 1 == 1 && 2u8 & 1 == 0 && 3u8 & 1 == 1 && 0u8 & 2 == 0 && 1u8 & 2
        == 0 && 2u8 & 2 == 2 && 3u8 & 2 == 2) by (bit_vector);
}

/// A frame is cut every 1180 bytes: byte `k` of packet `i` is byte `1180 * i + k` of the frame, all
/// packets but the last are full, and the last is not empty unless the frame is.
pub proof fn frames_are_cut_every_1180_bytes(encoded: Seq<u8>, i: int)
    requires
        0 <= i < fragments(encoded.len()),
    ensures
        ({
            let n = fragments(encoded.len());
            let part = chunk(encoded, i);
            &&& encoded.len() == 0 ==> n == 1 && part.len() == 0
            &&& encoded.len() > 0 ==> 1180 * (n - 1) < encoded.len() <= 1180 * n
            &&& i + 1 < n ==> part.len() == 1180
            &&& i + 1 == n ==> part.len() == encoded.len() - 1180 * i
            &&& forall|k: int| 0 <= k < part.len() ==> #[trigger] part[k] == encoded[1180 * i + k]
        }),
{
}

/// Every packet of a frame says which frame it belongs to, its own place, how many there are, and
/// whether it is the last.
pub proof fn headers_say_their_place(
    len: nat,
    i: int,
    frame_id: u32,
    monitor: u8,
    codec: Codec,
    keyframe: bool,
    capture_us: u64,
)
    requires
        0 <= i < fragments(len) <= 65535,
    ensures
        ({
            let h = fragment_header(len, i, frame_id, monitor, codec, keyframe, capture_us);
            &&& h.frame_id == frame_id
            &&& h.monitor == monitor
            &&& h.codec == codec
            &&& h.capture_us == capture_us
            &&& h.fragment_idx == i
            &&& h.fragment_count == fragments(len)
            &&& h.flags.keyframe() == keyframe
            &&& h.flags.last_fragment() == (i == fragments(len) - 1)
        }),
{
    flags_have_their_bits(keyframe, i + 1 == fragments(len));
}

/// A frame is cut so that the parts, put together, are the frame, and every packet reads back as its
/// header and its part.
pub proof fn packets_read_back(
    encoded: &[u8],
    frame_id: u32,
    monitor: u8,
    codec: Codec,
    keyframe: bool,
    capture_us: u64,
    packets: Vec<Bytes>,
    i: int,
)
    requires
        encoded@.len() <= 65535 * 1180,
        call_ensures(
            fragment_frame,
            (encoded, frame_id, monitor, codec, keyframe, capture_us),
            packets,
        ),
        0 <= i < packets@.len(),
    ensures
        packets@.len() == (if encoded@.len() == 0 {
            1
        } else {
            (encoded@.len() + 1179) / 1180
        }),
        VideoHeader::read(bytes_of(packets@[i])) matches Ok(header) && header.frame_id == frame_id
            && header.monitor == monitor && header.codec == codec && header.capture_us == capture_us
            && header.fragment_idx == i && header.fragment_count == packets@.len()
            && header.flags.keyframe() == keyframe && header.flags.last_fragment() == (i + 1
            == packets@.len()),
        bytes_of(packets@[i]).skip(20) == chunk(encoded@, i),
        joined(chunks(encoded@)) == encoded@,
{
    let header = fragment_header(
        encoded@.len(),
        i,
        frame_id,
        monitor,
        codec,
        keyframe,
        capture_us,
    );
    chunks_cover_frame(encoded@);
    assert(fragments(encoded@.len()) <= 65535);
    headers_say_their_place(
        encoded@.len(),
        i,
        frame_id,
        monitor,
        codec,
        keyframe,
        capture_us,
    );
    header_roundtrip(header, chunk(encoded@, i));
    assert(bytes_of(packets@[i]) == header.bytes() + chunk(encoded@, i));
}

/// A header that was written is read again, with what stands behind it.
pub proof fn written_headers_are_read(
    header: &VideoHeader,
    out: &mut [u8; 20],
    buf: &[u8],
    body: Seq<u8>,
    r: Result<(VideoHeader, &[u8]), ProtocolError>,
)
    requires
        call_ensures(VideoHeader::write_to, (header, out), ()),
        buf@ == final(out)@ + body,
        call_ensures(VideoHeader::parse, (buf,), r),
    ensures
        r matches Ok(read) && read.0 == *header && read.1@ == body,
{
    header_roundtrip(*header, body);
}

/// The flags of a header are told as they are set.
pub proof fn flags_are_told(flags: VideoFlags, key: bool, last: bool)
    requires
        call_ensures(VideoFlags::is_keyframe, (flags,), key),
        call_ensures(VideoFlags::is_last_fragment, (flags,), last),
    ensures
        key == flags.keyframe(),
        last == flags.last_fragment(),
{
}

} // verus!
