use remote_desktop::capture::synthetic::{list_displays, paint, Pace, SyntheticCapturer};
use remote_desktop::capture::{CaptureConfig, CaptureError, FrameSlot};

#[test]
fn frame_moi_de_len_frame_chua_ai_lay() {
    let mut slot = FrameSlot::new();
    slot.put(1u32);
    slot.put(2u32);

    assert_eq!(slot.take(true).expect("hết chờ").expect("có frame"), 2);
    let stats = slot.stats();
    assert_eq!(stats.frames_delivered, 2);
    assert_eq!(stats.frames_dropped, 1);
}

#[test]
fn o_rong_thi_bao_het_gio() {
    let mut slot = FrameSlot::<u32>::new();
    assert!(matches!(slot.take(true), Some(Err(CaptureError::Timeout))));
}

#[test]
fn dung_luong_van_giao_not_frame_cuoi() {
    let mut slot = FrameSlot::new();
    slot.put(7u32);
    slot.stop(None);

    assert_eq!(slot.take(true).expect("hết chờ").expect("còn frame cuối"), 7);
    assert!(matches!(slot.take(true), Some(Err(CaptureError::Stopped))));
}

#[test]
fn dung_kem_loi_thi_bao_lai_loi_do() {
    let mut slot = FrameSlot::<u32>::new();
    slot.stop(Some("màn hình bị rút".into()));
    let Some(Err(CaptureError::Platform(message))) = slot.take(true) else {
        panic!("phải trả về lỗi của nền tảng");
    };
    assert_eq!(message, "màn hình bị rút");
}

#[test]
fn an_empty_slot_is_worth_waiting_for() {
    let mut slot = FrameSlot::new();
    assert!(slot.take(false).is_none());
    slot.put(42u32);
    assert_eq!(slot.take(false).expect("có frame").expect("có frame"), 42);
    slot.note_idle();
    assert_eq!(slot.stats().frames_idle, 1);
    assert_eq!(slot.stats().frames_dropped, 0);
}

#[test]
fn a_reason_is_told_once() {
    let mut slot = FrameSlot::<u32>::new();
    slot.stop(Some("mất luồng".into()));
    slot.stop(None);
    assert!(matches!(slot.take(false), Some(Err(CaptureError::Platform(_)))));
    assert!(matches!(slot.take(false), Some(Err(CaptureError::Stopped))));
}

#[test]
fn capture_errors_in_words() {
    assert_eq!(
        CaptureError::DisplayNotFound(3).message(),
        "không tìm thấy màn hình có id 3"
    );
    assert_eq!(
        CaptureError::Timeout.message(),
        "chưa có frame nào trong thời gian chờ"
    );
    assert_eq!(CaptureError::Stopped.message(), "luồng capture đã dừng");
    assert_eq!(
        CaptureError::Platform("x".into()).message(),
        "lỗi từ hệ thống: x"
    );
    assert_eq!(
        CaptureError::Unsupported.message(),
        "nền tảng này chưa được hỗ trợ"
    );
    assert!(CaptureError::PermissionDenied.message().contains("Screen Recording"));
}

const W: u32 = 64;
const H: u32 = 32;
const STRIDE: usize = W as usize * 4 + 16;

fn render(index: u32) -> Vec<u8> {
    let mut pixels = vec![0u8; STRIDE * H as usize];
    paint(&mut pixels, STRIDE, W, H, index);
    pixels
}

#[test]
fn hai_frame_lien_tiep_khac_nhau() {
    assert_ne!(render(0), render(1));
}

#[test]
fn moi_pixel_deu_duc() {
    let pixels = render(3);
    for y in 0..H as usize {
        for x in 0..W as usize {
            assert_eq!(pixels[y * STRIDE + x * 4 + 3], 255, "pixel ({x}, {y})");
        }
    }
}

#[test]
fn khong_ghi_ra_ngoai_phan_dem_cuoi_hang() {
    let pixels = render(5);
    for y in 0..H as usize {
        let padding = &pixels[y * STRIDE + W as usize * 4..(y + 1) * STRIDE];
        assert!(padding.iter().all(|&b| b == 0), "hàng {y} ghi tràn");
    }
}

#[test]
fn the_picture_is_as_drawn() {
    // At index 2 the window begins at (14, 6) and is 16 by 8.
    let pixels = render(2);
    let at = |x: usize, y: usize| {
        let i = y * STRIDE + x * 4;
        (pixels[i], pixels[i + 1], pixels[i + 2])
    };
    assert_eq!(at(14, 6), (40, 200, 90));
    assert_eq!(at(29, 13), (40, 200, 90));
    assert_eq!(at(30, 13), (34, 51, 103));
    assert_eq!(at(13, 6), (15, 23, 47));
    assert_eq!(at(1, 17), (250, 250, 250));
    assert_eq!(at(2, 17), (45, 67, 135));
    assert_eq!(at(1, 16), (42, 63, 127));
}

#[test]
fn the_last_of_overlapping_rows_shows() {
    // Rows of 8 bytes that begin 3 bytes apart.
    let mut pixels = vec![7u8; 15];
    paint(&mut pixels, 3, 2, 3, 0);
    let mut alone = vec![7u8; 24];
    paint(&mut alone, 8, 2, 3, 0);
    assert_eq!(pixels[0..3], alone[0..3]);
    assert_eq!(pixels[3..6], alone[8..11]);
    assert_eq!(pixels[6..14], alone[16..24]);
    assert_eq!(pixels[14], 7);
}

#[test]
fn only_tiny_pictures_repeat() {
    let draw = |w: u32, h: u32, index: u32| {
        let mut pixels = vec![0u8; (w * h * 4) as usize];
        paint(&mut pixels, w as usize * 4, w, h, index);
        pixels
    };
    assert_eq!(draw(9, 2, 5), draw(9, 2, 6));
    assert_eq!(draw(1, 4, 1), draw(1, 4, 2));
    assert_ne!(draw(1, 4, 2), draw(1, 4, 3));
    for index in 0..40 {
        assert_ne!(draw(9, 3, index), draw(9, 3, index + 1));
        assert_ne!(draw(2, 4, index), draw(2, 4, index + 1));
    }
}

#[test]
fn a_synthetic_screen() {
    let displays = list_displays();
    assert_eq!(displays.len(), 1);
    assert_eq!(displays[0].name, "Màn hình tổng hợp");
    assert_eq!(f32::from_bits(displays[0].scale.bits), 1.0);

    let mut config = CaptureConfig::default();
    config.max_dimension = Some(1281);
    config.target_fps = 50;
    let mut capturer = SyntheticCapturer::start(config);
    assert_eq!(capturer.pace(0, 5), Pace::Wait(0));
    let frame = capturer.next_frame((), 9);
    assert_eq!((frame.width, frame.height), (1280, 720));
    assert_eq!((frame.capture_us, frame.frame_index), (9, 0));
    assert_eq!(capturer.slot(), 1);
    assert_eq!(capturer.pace(5_000_000, 20_000_000), Pace::Wait(15_000_000));
    assert_eq!(
        capturer.pace(5_000_000, 14_999_999),
        Pace::Fail(CaptureError::Timeout)
    );
    assert_eq!(capturer.stats().frames_delivered, 1);
    capturer.stop();
    assert_eq!(capturer.pace(0, 0), Pace::Fail(CaptureError::Stopped));
}
