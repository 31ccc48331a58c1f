use remote_desktop::protocol::control::Codec;
use remote_desktop::protocol::video::{fragment_frame, VideoFlags, VideoHeader, VIDEO_HEADER_LEN};
use remote_desktop::protocol::{MAX_DATAGRAM_SIZE, MAX_VIDEO_PAYLOAD};

#[test]
fn header_roundtrip() {
    let header = VideoHeader {
        flags: VideoFlags(VideoFlags::KEYFRAME | VideoFlags::LAST_FRAGMENT),
        monitor: 2,
        codec: Codec::Hevc,
        frame_id: 123_456,
        fragment_idx: 7,
        fragment_count: 8,
        capture_us: 1_700_000_000_000_000,
    };
    let mut buf = [0u8; VIDEO_HEADER_LEN];
    header.write_to(&mut buf);
    let (parsed, rest) = VideoHeader::parse(&buf).unwrap();
    assert_eq!(parsed, header);
    assert!(rest.is_empty());
    assert!(parsed.flags.is_keyframe());
    assert!(parsed.flags.is_last_fragment());
}

#[test]
fn fragment_covers_whole_frame() {
    let payload: Vec<u8> = (0..5000u32).map(|i| i as u8).collect();
    let packets = fragment_frame(&payload, 42, 0, Codec::H264, true, 999);
    assert_eq!(packets.len(), payload.len().div_ceil(MAX_VIDEO_PAYLOAD));

    let mut rebuilt = Vec::new();
    for (i, packet) in packets.iter().enumerate() {
        let (header, body) = VideoHeader::parse(packet).unwrap();
        assert_eq!(header.frame_id, 42);
        assert_eq!(header.fragment_idx, i as u16);
        assert_eq!(header.fragment_count as usize, packets.len());
        assert!(packet.len() <= MAX_DATAGRAM_SIZE);
        rebuilt.extend_from_slice(body);
    }
    assert_eq!(rebuilt, payload);
    assert!(
        VideoHeader::parse(packets.last().unwrap())
            .unwrap()
            .0
            .flags
            .is_last_fragment()
    );
}

#[test]
fn empty_frame_still_produces_one_packet() {
    let packets = fragment_frame(&[], 1, 0, Codec::Av1, false, 0);
    assert_eq!(packets.len(), 1);
    assert_eq!(packets[0].len(), VIDEO_HEADER_LEN);
}
