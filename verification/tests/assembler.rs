use remote_desktop::protocol::assembler::FrameAssembler;
use remote_desktop::protocol::control::Codec;
use remote_desktop::protocol::video::fragment_frame;

fn payload(len: usize) -> Vec<u8> {
    (0..len).map(|i| (i % 251) as u8).collect()
}

#[test]
fn reassembles_multi_fragment_frame() {
    let data = payload(10_000);
    let packets = fragment_frame(&data, 1, 0, Codec::Hevc, true, 12345);
    let mut assembler = FrameAssembler::default();

    let mut out = None;
    for packet in &packets {
        if let Some(frame) = assembler.push(packet).unwrap() {
            out = Some(frame);
        }
    }
    let frame = out.expect("phải ghép được frame");
    assert_eq!(frame.data, data);
    assert_eq!(frame.frame_id, 1);
    assert!(frame.keyframe);
    assert_eq!(frame.capture_us, 12345);
    assert_eq!(assembler.stats().frames_completed, 1);
}

#[test]
fn out_of_order_fragments_still_assemble() {
    let data = payload(4000);
    let mut packets = fragment_frame(&data, 7, 0, Codec::H264, false, 1);
    packets.reverse();
    let mut assembler = FrameAssembler::default();
    let mut out = None;
    for packet in &packets {
        if let Some(frame) = assembler.push(packet).unwrap() {
            out = Some(frame);
        }
    }
    assert_eq!(out.unwrap().data, data);
}

#[test]
fn missing_fragment_drops_frame_and_counts_loss() {
    let data = payload(10_000);
    let broken = fragment_frame(&data, 1, 0, Codec::Hevc, true, 0);
    let good = fragment_frame(&payload(500), 2, 0, Codec::Hevc, false, 0);
    let mut assembler = FrameAssembler::default();

    for packet in &broken[1..] {
        assert!(assembler.push(packet).unwrap().is_none());
    }
    let mut done = false;
    for packet in &good {
        if assembler.push(packet).unwrap().is_some() {
            done = true;
        }
    }
    assert!(done);
    let stats = assembler.stats();
    assert_eq!(stats.frames_completed, 1);
    assert_eq!(stats.frames_dropped, 1);
    assert_eq!(stats.packets_lost, 1);
}

#[test]
fn late_fragments_of_old_frame_are_ignored() {
    let old = fragment_frame(&payload(300), 5, 0, Codec::Hevc, false, 0);
    let new = fragment_frame(&payload(300), 9, 0, Codec::Hevc, false, 0);
    let mut assembler = FrameAssembler::default();
    assert!(assembler.push(&new[0]).unwrap().is_some());
    assert!(assembler.push(&old[0]).unwrap().is_none());
    assert_eq!(assembler.stats().frames_completed, 1);
}

#[test]
fn window_limits_pending_frames() {
    let mut assembler = FrameAssembler::new(2);
    for id in 1..=5u32 {
        let packets = fragment_frame(&payload(5000), id, 0, Codec::Hevc, false, 0);
        assembler.push(&packets[0]).unwrap();
    }
    assert!(assembler.stats().frames_dropped >= 2);
}
