use remote_desktop::capture::macos::{
    answered, choose_display, classify_error, fourcc, list_displays, stream_settings,
    MacScreenCapturer, Reply, Seen,
};
use remote_desktop::capture::windows::{
    classify_start, describe, prepare, Cursor, D3dSurface, Monitor, StartFailure, Support,
    WgcScreenCapturer,
};
use remote_desktop::capture::{CaptureConfig, CaptureError, PixelFormat};
use remote_desktop::input::macos::{CgInjector, MouseKind, Posted, NUMERIC_PAD};
use remote_desktop::input::windows::{
    outcome, Input, SendInputInjector, ABSOLUTE, EXTENDED_KEY, HWHEEL, KEY_UP, LEFT_UP, MOVE,
    SCAN_CODE, UNICODE, WHEEL, XBUTTON2, X_DOWN,
};
use remote_desktop::input::{main_screen_geometry, InputError};
use remote_desktop::protocol::control::{InputEvent, KeyCode, MouseButton, Real32};

const HALF: Real32 = Real32 { bits: 0x3f00_0000 };
const ONE: Real32 = Real32 { bits: 0x3f80_0000 };

fn key(code: KeyCode, pressed: bool) -> InputEvent {
    InputEvent::Key { code, pressed }
}

fn button(button: MouseButton, pressed: bool) -> InputEvent {
    InputEvent::MouseButton { monitor: 0, button, pressed, x: HALF, y: ONE }
}

#[test]
fn capture_on_a_mac_tells_refusals_apart() {
    assert_eq!(fourcc(b"BGRA"), 0x4247_5241);
    assert_eq!(classify_error(-3801, "x"), CaptureError::PermissionDenied);
    assert_eq!(classify_error(-3803, "x"), CaptureError::PermissionDenied);
    assert_eq!(
        classify_error(-5, "hỏng"),
        CaptureError::Platform("hỏng (mã -5)".into())
    );
    assert_eq!(answered(&Reply::Silent), Err(CaptureError::PermissionDenied));
    assert_eq!(answered(&Reply::Done), Ok(()));
    assert_eq!(
        list_displays(&[]).unwrap_err(),
        CaptureError::Platform("không tìm thấy màn hình nào".into())
    );
    let seen = Seen { id: 9, width: 3840, height: 2160, scale: ONE };
    let listed = list_displays(&[seen, seen]).unwrap();
    assert_eq!(listed[1].name, "Display 2");
    assert!(listed[0].is_primary && !listed[1].is_primary);
    assert_eq!(choose_display(&[4, 5], 0), Ok(0));
    assert_eq!(choose_display(&[4, 5], 5), Ok(1));
    assert_eq!(choose_display(&[4, 5], 6), Err(CaptureError::DisplayNotFound(6)));
}

#[test]
fn capture_on_a_mac_hands_out_frames() {
    let mut config = CaptureConfig::default();
    config.target_fps = 0;
    config.queue_depth = 1;
    config.pixel_format = PixelFormat::Nv12;
    let settings = stream_settings(&config, 1281, 721);
    assert_eq!((settings.width, settings.height), (1280, 720));
    assert_eq!((settings.timescale, settings.queue_depth), (1, 3));
    assert_eq!(settings.pixel_format, fourcc(b"420v"));
    let failed = Reply::Failed { code: -3801, message: "x".into() };
    assert_eq!(
        MacScreenCapturer::<u8>::start(&config, &settings, 1, ONE, &failed).err(),
        Some(CaptureError::PermissionDenied)
    );
    let mut capturer =
        MacScreenCapturer::<u8>::start(&config, &settings, 1, ONE, &Reply::Done).unwrap();
    assert_eq!(capturer.display().name, "Display");
    capturer.arrived(false, None, Some((1, 2, 2)), 5);
    capturer.arrived(true, Some(1), Some((2, 2, 2)), 6);
    capturer.arrived(true, None, None, 7);
    assert!(capturer.next_frame(false).is_none());
    assert_eq!(capturer.stats().frames_idle, 1);
    capturer.arrived(true, Some(0), Some((3, 1280, 720)), 8);
    let frame = capturer.next_frame(false).unwrap().unwrap();
    assert_eq!((frame.surface, frame.frame_index, frame.capture_us), (3, 1, 8));
    capturer.stopped_with("mất luồng".into());
    assert_eq!(
        capturer.next_frame(false).unwrap().err(),
        Some(CaptureError::Platform("mất luồng".into()))
    );
    assert!(capturer.stop());
    assert!(!capturer.stop());
}

const FULL: Support = Support { capture: true, cursor: true, border: true, interval: true };

fn monitor() -> Monitor {
    Monitor { name: None, width: Some(1920), height: Some(1080), refresh_hz: None }
}

#[test]
fn capture_on_windows_prepares() {
    let display = describe(&monitor(), 1, 30);
    assert_eq!((display.name.as_str(), display.refresh_hz), ("Màn hình 2", 30));
    let mut config = CaptureConfig::default();
    config.pixel_format = PixelFormat::Bgra32;
    config.target_fps = 60;
    config.show_cursor = false;
    config.queue_depth = 5;
    config.display_id = 0;
    config.max_dimension = None;
    let (settings, _) = prepare(&config, &Some(monitor()), FULL).unwrap();
    assert_eq!(settings.cursor, Cursor::Without);
    assert_eq!((settings.interval_us, settings.ring_size), (Some(16_666), 5));
    assert_eq!(
        prepare(&config, &None, FULL).unwrap_err(),
        CaptureError::DisplayNotFound(0)
    );
    let poor = Support { capture: false, ..FULL };
    assert_eq!(
        prepare(&config, &Some(monitor()), poor).unwrap_err(),
        CaptureError::Unsupported
    );
    config.max_dimension = Some(1280);
    assert_eq!(
        prepare(&config, &Some(monitor()), FULL).unwrap_err().message(),
        "lỗi từ hệ thống: chưa thu nhỏ được trên Windows: màn hình 1920px, xin 1280px"
    );
    config.pixel_format = PixelFormat::Nv12;
    assert!(matches!(
        prepare(&config, &None, FULL).unwrap_err(),
        CaptureError::Platform(_)
    ));
    assert_eq!(classify_start(StartFailure::Unsupported), CaptureError::Unsupported);
    assert_eq!(
        classify_start(StartFailure::Other("x".into())),
        CaptureError::Platform("x".into())
    );
    let surface = D3dSurface::new(1, 2, 3, 4);
    assert_eq!((*surface.texture(), *surface.device()), (1, 2));
    assert_eq!((surface.width(), surface.height()), (3, 4));
}

#[test]
fn capture_on_windows_rebuilds_its_ring() {
    let mut config = CaptureConfig::default();
    config.pixel_format = PixelFormat::Bgra32;
    config.max_dimension = None;
    let (settings, display) = prepare(&config, &Some(monitor()), FULL).unwrap();
    let mut capturer = WgcScreenCapturer::<u8>::start(&settings, display);
    assert!(capturer.needs_ring(2, 2));
    capturer.rebuild_ring(2, 2, None).unwrap();
    assert!(!capturer.needs_ring(2, 2) && capturer.needs_ring(2, 4));
    let first = capturer.target();
    capturer.arrived(7, 2, 2, 9);
    assert_ne!(capturer.target(), first);
    assert_eq!(capturer.next_frame(false).unwrap().unwrap().surface, 7);
    let error = capturer.rebuild_ring(4, 4, Some("đầy".into())).unwrap_err();
    assert_eq!(error, CaptureError::Platform("không tạo được texture 4x4: đầy".into()));
    assert!(capturer.next_frame(false).unwrap().is_err());
    capturer.closed();
    assert!(capturer.stop());
    assert_eq!(capturer.stats().frames_delivered, 1);
}

#[test]
fn input_on_a_mac_needs_permission() {
    assert_eq!(CgInjector::open(false, true).err(), Some(InputError::PermissionDenied));
    assert_eq!(
        CgInjector::open(true, false).err(),
        Some(InputError::Platform("không tạo được CGEventSource".into()))
    );
    assert!(CgInjector::open(true, true).unwrap().is_idle());
    assert_eq!(main_screen_geometry(1920, 1080), Ok((1920, 1080)));
    assert!(matches!(main_screen_geometry(0, 5), Err(InputError::Platform(_))));
    assert_eq!(
        InputError::UnsupportedKey(KeyCode::Insert).message(),
        "mã phím Insert không có trên nền tảng này"
    );
    assert_eq!(
        InputError::Platform("x".into()).message(),
        "không tạo được sự kiện: x"
    );
}

#[test]
fn a_shortcut_carries_its_modifier() {
    let mut mac = CgInjector::open(true, true).unwrap();
    let command = 1u64 << 20;
    let down = mac.inject(&key(KeyCode::MetaLeft, true));
    assert!(matches!(
        down.steps[0],
        Ok(Posted::Key { pressed: true, flags, .. }) if flags == command
    ));
    let c = mac.inject(&key(KeyCode::C, true));
    assert_eq!(c.steps[0], Ok(Posted::Key { vk: 8, pressed: true, flags: command }));
    assert!(mac.inject(&key(KeyCode::C, true)).steps.is_empty());
    let pad = mac.inject(&key(KeyCode::Numpad5, true));
    assert!(matches!(
        pad.steps[0],
        Ok(Posted::Key { flags, .. }) if flags == command + NUMERIC_PAD
    ));
    mac.inject(&button(MouseButton::Right, true));
    let drag = mac.inject(&InputEvent::MouseMove { monitor: 0, x: HALF, y: HALF });
    assert_eq!(
        drag.steps[0],
        Ok(Posted::Mouse {
            kind: MouseKind::RightDragged,
            button: 1,
            at: Some((HALF, HALF)),
            flags: command,
        })
    );
    let all = mac.release_all();
    assert_eq!(all.steps.len(), 4);
    assert!(matches!(
        all.steps[0],
        Ok(Posted::Mouse { kind: MouseKind::RightUp, at: None, .. })
    ));
    assert!(mac.is_idle());
}

#[test]
fn text_goes_in_units() {
    let mut mac = CgInjector::open(true, true).unwrap();
    let typed = "a😀ế";
    let plan = mac.inject(&InputEvent::Text { text: typed.into() });
    assert_eq!(plan.units, typed.encode_utf16().collect::<Vec<u16>>());
    assert_eq!(plan.steps.len(), 2);
    assert!(mac.inject(&InputEvent::Text { text: "".into() }).steps.is_empty());
    let mut windows = SendInputInjector::open();
    let inputs = windows.inject(&InputEvent::Text { text: typed.into() }, (0, 0));
    assert_eq!(inputs.len(), 8);
    let units: Vec<u16> = typed.encode_utf16().collect();
    assert_eq!(inputs[2], Input::Keyboard { vk: 0, scan: units[1], flags: UNICODE });
    assert_eq!(
        inputs[3],
        Input::Keyboard { vk: 0, scan: units[1], flags: UNICODE + KEY_UP }
    );
}

#[test]
fn input_on_windows() {
    let mut windows = SendInputInjector::open();
    assert_eq!(
        windows.inject(&button(MouseButton::Forward, true), (0, 0)),
        [Input::Mouse {
            flags: X_DOWN + MOVE + ABSOLUTE,
            to: Some((HALF, ONE)),
            data: XBUTTON2,
        }]
    );
    assert!(windows.inject(&button(MouseButton::Forward, true), (0, 0)).is_empty());
    assert_eq!(
        windows.inject(&key(KeyCode::ArrowUp, true), (0, 0)),
        [Input::Keyboard { vk: 0, scan: 0x48, flags: SCAN_CODE + EXTENDED_KEY }]
    );
    assert_eq!(
        windows.inject(&key(KeyCode::Pause, true), (0, 0)),
        [Input::Keyboard { vk: 0x13, scan: 0, flags: 0 }]
    );
    let scroll = InputEvent::Scroll { monitor: 0, delta_x: HALF, delta_y: ONE };
    assert_eq!(
        windows.inject(&scroll, (-120, 120)),
        [
            Input::Mouse { flags: WHEEL, to: None, data: 120 },
            Input::Mouse { flags: HWHEEL, to: None, data: -120 },
        ]
    );
    assert!(windows.inject(&scroll, (0, 0)).is_empty());
    windows.inject(&button(MouseButton::Left, true), (0, 0));
    let released = windows.inject(&InputEvent::ReleaseAll, (0, 0));
    assert_eq!(released.len(), 4);
    assert_eq!(released[1], Input::Mouse { flags: LEFT_UP, to: None, data: 0 });
    assert!(windows.is_idle());
    assert_eq!(outcome(2, 2, 0), Ok(()));
    assert_eq!(outcome(0, 0, 5), Ok(()));
    assert_eq!(outcome(1, 2, 5), Err(InputError::PermissionDenied));
    assert_eq!(
        outcome(1, 2, 7),
        Err(InputError::Platform("SendInput chỉ nhận 1/2 sự kiện (mã lỗi 7)".into()))
    );
}
