//! Capturing with Windows Graphics Capture.
//!
//! The system hands out a few textures again and again, so each frame is copied, within the
//! graphics card, into a ring of our own. It gives BGRA at the native resolution only: what asks
//! for anything else is refused rather than served with something different.

use vstd::prelude::*;
use vstd::string::StringExecFns;

use crate::capture::{
    CaptureConfig, CaptureError, CaptureStats, CapturedFrame, DisplayInfo, FrameSlot, PixelFormat,
};
use crate::protocol::control::{Real32, ONE_BITS};
use crate::text::push_decimal;

verus! {

/// The fewest textures in the ring.
pub const MIN_RING: usize = 3;

/// A texture that holds a frame, with the device that made it: an encoder must live on the same
/// one.
#[derive(Debug)]
pub struct D3dSurface<T, D> {
    texture: T,
    device: D,
    width: u32,
    height: u32,
}

impl<T, D> D3dSurface<T, D> {
    pub closed spec fn parts(&self) -> (T, D) {
        (self.texture, self.device)
    }

    pub closed spec fn size(&self) -> (u32, u32) {
        (self.width, self.height)
    }

    pub fn new(texture: T, device: D, width: u32, height: u32) -> (r: Self)
        ensures
            r.parts() == (texture, device),
            r.size() == (width, height),
    {
        D3dSurface { texture, device, width, height }
    }

    pub fn texture(&self) -> (r: &T)
        ensures
            *r == self.parts().0,
    {
        &self.texture
    }

    pub fn device(&self) -> (r: &D)
        ensures
            *r == self.parts().1,
    {
        &self.device
    }

    pub fn width(&self) -> (r: u32)
        ensures
            r == self.size().0,
    {
        self.width
    }

    pub fn height(&self) -> (r: u32)
        ensures
            r == self.size().1,
    {
        self.height
    }
}

/// What the system says of a monitor. Any of it may fail to be read.
#[derive(Debug, Clone)]
pub struct Monitor {
    pub name: Option<String>,
    pub width: Option<u32>,
    pub height: Option<u32>,
    pub refresh_hz: Option<u32>,
}

pub open spec fn or(value: Option<u32>, other: u32) -> u32 {
    match value {
        Some(n) => n,
        None => other,
    }
}

fn or_else(value: Option<u32>, other: u32) -> (r: u32)
    ensures
        r == or(value, other),
{
    match value {
        Some(n) => n,
        None => other,
    }
}

/// The entry for a monitor: sensible values where something could not be read.
pub open spec fn described(
    monitor: Monitor,
    index: int,
    target_fps: u32,
    info: DisplayInfo,
) -> bool {
    info.name@ == (match monitor.name {
        Some(name) => name@,
        None => "Màn hình "@ + crate::text::decimal((index + 1) as nat),
    }) && info == (DisplayInfo {
        id: index as u32,
        name: info.name,
        width: or(monitor.width, 0),
        height: or(monitor.height, 0),
        scale: Real32 { bits: ONE_BITS },
        refresh_hz: or(monitor.refresh_hz, target_fps),
        is_primary: index == 0,
    })
}

pub fn describe(monitor: &Monitor, index: u32, target_fps: u32) -> (r: DisplayInfo)
    ensures
        described(*monitor, index as int, target_fps, r),
{
    let name: String = match &monitor.name {
        Some(name) => name.as_str().to_owned(),
        None => {
            let mut s: String = "Màn hình ".to_owned();
            push_decimal(&mut s, index as u64 + 1);
            s
        },
    };
    DisplayInfo {
        id: index,
        name,
        width: or_else(monitor.width, 0),
        height: or_else(monitor.height, 0),
        scale: Real32 { bits: ONE_BITS },
        refresh_hz: or_else(monitor.refresh_hz, target_fps),
        is_primary: index == 0,
    }
}

/// The monitors, by their place in the system's list.
pub fn list_displays(monitors: &[Monitor]) -> (r: Vec<DisplayInfo>)
    requires
        monitors@.len() <= u32::MAX,
    ensures
        r@.len() == monitors@.len(),
        forall|i: int|
            0 <= i < monitors@.len() ==> #[trigger] described(monitors@[i], i, 60, r@[i]),
{
    let mut r: Vec<DisplayInfo> = Vec::new();
    let mut i: u32 = 0;
    while (i as usize) < monitors.len()
        invariant
            i <= monitors@.len(),
            monitors@.len() <= u32::MAX,
            r@.len() == i,
            forall|j: int| 0 <= j < i ==> #[trigger] described(monitors@[j], j, 60, r@[j]),
        decreases monitors@.len() - i,
    {
        let info = describe(&monitors[i as usize], i, 60);
        r.push(info);
        i += 1;
    }
    r
}

/// What this version of Windows can do. A question that failed counts as no.
#[derive(Debug, Clone, Copy, PartialEq, Eq, Structural)]
pub struct Support {
    pub capture: bool,
    pub cursor: bool,
    pub border: bool,
    pub interval: bool,
}

#[derive(Debug, Clone, Copy, PartialEq, Eq, Structural)]
pub enum Cursor {
    Default,
    With,
    Without,
}

/// What to ask the system for. An option that it does not have would make the start fail.
#[derive(Debug, Clone, Copy, PartialEq, Eq, Structural)]
pub struct CaptureSettings {
    pub cursor: Cursor,
    /// Whether the yellow border is switched off.
    pub without_border: bool,
    /// Microseconds between two frames at least.
    pub interval_us: Option<u64>,
    pub ring_size: usize,
}

pub open spec fn longer(a: u32, b: u32) -> u32 {
    if a > b {
        a
    } else {
        b
    }
}

/// Checks what is asked for and says how to ask the system. `monitor` is the one with the number
/// `display_id`, counted from 0.
pub fn prepare(config: &CaptureConfig, monitor: &Option<Monitor>, support: Support) -> (r: Result<
    (CaptureSettings, DisplayInfo),
    CaptureError,
>)
    requires
        config.queue_depth <= usize::MAX,
    ensures
        match r {
            Ok((settings, display)) => config.pixel_format is Bgra32 && *monitor is Some
                && support.capture && described(
                (*monitor)->0,
                config.display_id as int,
                config.target_fps,
                display,
            ) && (config.max_dimension matches Some(limit) ==> longer(
                display.width,
                display.height,
            ) <= limit) && settings == (CaptureSettings {
                cursor: if !support.cursor {
                    Cursor::Default
                } else if config.show_cursor {
                    Cursor::With
                } else {
                    Cursor::Without
                },
                without_border: support.border,
                interval_us: if support.interval {
                    Some(
                        1_000_000u64 / (if config.target_fps < 1 {
                            1u64
                        } else {
                            config.target_fps as u64
                        }),
                    )
                } else {
                    None
                },
                ring_size: if config.queue_depth < MIN_RING {
                    MIN_RING
                } else {
                    config.queue_depth as usize
                },
            }),
            Err(CaptureError::DisplayNotFound(id)) => config.pixel_format is Bgra32 && *monitor
                is None && id == config.display_id,
            Err(CaptureError::Unsupported) => config.pixel_format is Bgra32 && *monitor is Some
                && !support.capture && !too_large(*config, (*monitor)->0),
            Err(CaptureError::Platform(reason)) => (config.pixel_format is Nv12 && reason@
                == "Windows Graphics Capture không trả NV12; dùng Bgra32 và để bộ mã hoá đổi màu"@)
                || (config.pixel_format is Bgra32 && *monitor is Some && too_large(
                *config,
                (*monitor)->0,
            ) && reason@ == "chưa thu nhỏ được trên Windows: màn hình "@ + crate::text::decimal(
                edge_of((*monitor)->0) as nat,
            ) + "px, xin "@ + crate::text::decimal(config.max_dimension->0 as nat) + "px"@),
            Err(_) => false,
        },
{
    if config.pixel_format == PixelFormat::Nv12 {
        return Err(
            CaptureError::Platform(
                "Windows Graphics Capture không trả NV12; dùng Bgra32 và để bộ mã hoá đổi màu".to_owned(),
            ),
        );
    }
    let monitor: &Monitor = match monitor {
        Some(found) => found,
        None => {
            return Err(CaptureError::DisplayNotFound(config.display_id));
        },
    };
    let display = describe(monitor, config.display_id, config.target_fps);
    match config.max_dimension {
        Some(limit) => {
            let edge: u32 = if display.width > display.height {
                display.width
            } else {
                display.height
            };
            if edge > limit {
                let mut s: String = "chưa thu nhỏ được trên Windows: màn hình ".to_owned();
                push_decimal(&mut s, edge as u64);
                s.append("px, xin ");
                push_decimal(&mut s, limit as u64);
                s.append("px");
                return Err(CaptureError::Platform(s));
            }
        },
        None => {},
    }
    if !support.capture {
        return Err(CaptureError::Unsupported);
    }
    let cursor = match (config.show_cursor, support.cursor) {
        (_, false) => Cursor::Default,
        (true, true) => Cursor::With,
        (false, true) => Cursor::Without,
    };
    let fps: u64 = if config.target_fps < 1 { 1 } else { config.target_fps as u64 };
    let interval_us: Option<u64> = if support.interval { Some(1_000_000u64 / fps) } else { None };
    let depth: usize = config.queue_depth as usize;
    let settings = CaptureSettings {
        cursor,
        without_border: support.border,
        interval_us,
        ring_size: if depth < MIN_RING { MIN_RING } else { depth },
    };
    Ok((settings, display))
}

/// The longer edge of a monitor.
pub open spec fn edge_of(monitor: Monitor) -> u32 {
    longer(or(monitor.width, 0), or(monitor.height, 0))
}

/// Frames cannot be made smaller here.
pub open spec fn too_large(config: CaptureConfig, monitor: Monitor) -> bool {
    config.max_dimension matches Some(limit) && edge_of(monitor) > limit
}

/// What comes back when a capture cannot be started.
#[derive(Debug)]
pub enum StartFailure {
    /// Our own handler failed.
    Handler(CaptureError),
    Unsupported,
    Other(String),
}

pub fn classify_start(failure: StartFailure) -> (r: CaptureError)
    ensures
        r == (match failure {
            StartFailure::Handler(e) => e,
            StartFailure::Unsupported => CaptureError::Unsupported,
            StartFailure::Other(reason) => CaptureError::Platform(reason),
        }),
{
    match failure {
        StartFailure::Handler(e) => e,
        StartFailure::Unsupported => CaptureError::Unsupported,
        StartFailure::Other(reason) => CaptureError::Platform(reason),
    }
}

pub struct WgcScreenCapturer<S> {
    slot: FrameSlot<CapturedFrame<S>>,
    display: DisplayInfo,
    ring_size: usize,
    /// Size of the textures in the ring; the user may change the resolution.
    size: Option<(u32, u32)>,
    index: u64,
    running: bool,
}

impl<S> WgcScreenCapturer<S> {
    pub closed spec fn place(&self) -> FrameSlot<CapturedFrame<S>> {
        self.slot
    }

    pub closed spec fn shown(&self) -> DisplayInfo {
        self.display
    }

    pub closed spec fn ring(&self) -> usize {
        self.ring_size
    }

    pub closed spec fn built(&self) -> Option<(u32, u32)> {
        self.size
    }

    pub closed spec fn seen(&self) -> u64 {
        self.index
    }

    pub closed spec fn on(&self) -> bool {
        self.running
    }

    pub open spec fn wf(&self) -> bool {
        self.ring() >= MIN_RING
    }

    pub fn start(settings: &CaptureSettings, display: DisplayInfo) -> (r: Self)
        requires
            settings.ring_size >= MIN_RING,
        ensures
            r.wf(),
            r.shown() == display,
            r.ring() == settings.ring_size,
            r.built() is None,
            r.seen() == 0,
            r.on(),
            r.place().held() is None,
            !r.place().closed_down(),
            r.place().reason() is None,
            r.place().counts() == (CaptureStats {
                frames_delivered: 0,
                frames_dropped: 0,
                frames_idle: 0,
            }),
    {
        WgcScreenCapturer {
            slot: FrameSlot::new(),
            display,
            ring_size: settings.ring_size,
            size: None,
            index: 0,
            running: true,
        }
    }

    pub fn display(&self) -> (r: &DisplayInfo)
        ensures
            *r == self.shown(),
    {
        &self.display
    }

    /// Whether a frame of this size needs a new ring first.
    pub fn needs_ring(&self, width: u32, height: u32) -> (r: bool)
        ensures
            r == (self.built() != Some((width, height))),
    {
        match self.size {
            Some((w, h)) => w != width || h != height,
            None => true,
        }
    }

    /// A new ring stands, or could not be made. Without one there is nothing to capture into, so
    /// whoever waits is told.
    pub fn rebuild_ring(&mut self, width: u32, height: u32, failure: Option<String>) -> (r: Result<
        (),
        CaptureError,
    >)
        requires
            old(self).wf(),
        ensures
            final(self).wf(),
            final(self).shown() == old(self).shown(),
            final(self).ring() == old(self).ring(),
            final(self).seen() == old(self).seen(),
            final(self).on() == old(self).on(),
            final(self).place().held() == old(self).place().held(),
            final(self).place().counts() == old(self).place().counts(),
            match failure {
                None => r == Ok::<(), CaptureError>(()) && final(self).built() == Some(
                    (width, height),
                ) && final(self).place() == old(self).place(),
                Some(cause) => {
                    let reason = "không tạo được texture "@ + crate::text::decimal(width as nat)
                        + "x"@ + crate::text::decimal(height as nat) + ": "@ + cause@;
                    &&& final(self).built() == old(self).built()
                    &&& final(self).place().closed_down()
                    &&& match r {
                        Err(CaptureError::Platform(message)) => message@ == reason,
                        _ => false,
                    }
                    &&& match final(self).place().reason() {
                        Some(message) => message@ == "lỗi từ hệ thống: "@ + reason,
                        None => false,
                    }
                },
            },
    {
        match failure {
            None => {
                self.size = Some((width, height));
                Ok(())
            },
            Some(cause) => {
                let mut s: String = "không tạo được texture ".to_owned();
                push_decimal(&mut s, width as u64);
                s.append("x");
                push_decimal(&mut s, height as u64);
                s.append(": ");
                s.append(cause.as_str());
                let e = CaptureError::Platform(s);
                self.slot.stop(Some(e.message()));
                Err(e)
            },
        }
    }

    /// The texture of the ring that the next frame is copied to.
    pub fn target(&self) -> (r: usize)
        requires
            self.wf(),
        ensures
            r == self.seen() as int % self.ring() as int,
            r < self.ring(),
    {
        (self.index % self.ring_size as u64) as usize
    }

    /// A frame lies in the ring.
    pub fn arrived(&mut self, surface: S, width: u32, height: u32, capture_us: u64)
        requires
            old(self).wf(),
            old(self).place().can_count(),
            old(self).seen() < u64::MAX,
        ensures
            final(self).wf(),
            final(self).shown() == old(self).shown(),
            final(self).ring() == old(self).ring(),
            final(self).built() == old(self).built(),
            final(self).on() == old(self).on(),
            final(self).seen() == old(self).seen() + 1,
            final(self).place().held() == Some(
                CapturedFrame {
                    width,
                    height,
                    capture_us,
                    frame_index: (old(self).seen() + 1) as u64,
                    surface,
                },
            ),
            final(self).place().counts() == (CaptureStats {
                frames_delivered: (old(self).place().counts().frames_delivered + 1) as u64,
                frames_dropped: (old(self).place().counts().frames_dropped + if old(
                    self).place().held() is Some {
                    1int
                } else {
                    0int
                }) as u64,
                ..old(self).place().counts()
            }),
            final(self).place().closed_down() == old(self).place().closed_down(),
            final(self).place().reason() == old(self).place().reason(),
    {
        self.index = self.index + 1;
        self.slot.put(
            CapturedFrame { width, height, capture_us, frame_index: self.index, surface },
        );
    }

    /// The newest frame; `None` where it is worth waiting.
    pub fn next_frame(&mut self, expired: bool) -> (r: Option<
        Result<CapturedFrame<S>, CaptureError>,
    >)
        requires
            old(self).wf(),
        ensures
            final(self).wf(),
            final(self).place().counts() == old(self).place().counts(),
            final(self).place().closed_down() == old(self).place().closed_down(),
            final(self).place().held() is None,
            final(self).shown() == old(self).shown(),
            final(self).ring() == old(self).ring(),
            final(self).built() == old(self).built(),
            final(self).seen() == old(self).seen(),
            final(self).on() == old(self).on(),
            match old(self).place().held() {
                Some(frame) => r == Some(Ok::<CapturedFrame<S>, CaptureError>(frame)) && final(
                    self).place().reason() == old(self).place().reason(),
                None => if old(self).place().closed_down() {
                    final(self).place().reason() is None && r == Some(
                        Err::<CapturedFrame<S>, CaptureError>(
                            match old(self).place().reason() {
                                Some(message) => CaptureError::Platform(message),
                                None => CaptureError::Stopped,
                            },
                        ),
                    )
                } else {
                    final(self).place().reason() == old(self).place().reason() && r == (
                    if expired {
                        Some(Err::<CapturedFrame<S>, CaptureError>(CaptureError::Timeout))
                    } else {
                        None
                    })
                },
            },
    {
        self.slot.take(expired)
    }

    pub fn stats(&self) -> (r: CaptureStats)
        ensures
            r == self.place().counts(),
    {
        self.slot.stats()
    }

    /// The source closed by itself.
    pub fn closed(&mut self)
        requires
            old(self).wf(),
        ensures
            final(self).wf(),
            final(self).place().closed_down(),
            final(self).place().held() == old(self).place().held(),
            final(self).place().reason() == old(self).place().reason(),
            final(self).place().counts() == old(self).place().counts(),
            final(self).shown() == old(self).shown(),
            final(self).ring() == old(self).ring(),
            final(self).built() == old(self).built(),
            final(self).seen() == old(self).seen(),
            final(self).on() == old(self).on(),
    {
        self.slot.stop(None);
    }

    /// Whether the capture is to be stopped now: it is, once.
    pub fn stop(&mut self) -> (r: bool)
        requires
            old(self).wf(),
        ensures
            final(self).wf(),
            r == old(self).on(),
            !final(self).on(),
            final(self).place().closed_down() == (old(self).on() || old(self).place().closed_down()),
            final(self).place().held() == old(self).place().held(),
            final(self).place().reason() == old(self).place().reason(),
            final(self).place().counts() == old(self).place().counts(),
            final(self).shown() == old(self).shown(),
            final(self).ring() == old(self).ring(),
            final(self).built() == old(self).built(),
            final(self).seen() == old(self).seen(),
    {
        if !self.running {
            return false;
        }
        self.running = false;
        self.slot.stop(None);
        true
    }
}

/// A monitor is listed under its place in the list, the first as the main one. What could not be
/// read has a stand-in: no size, the wished-for rate, and a name that counts from 1.
pub proof fn monitors_are_listed_as_read(
    monitor: Monitor,
    index: int,
    target_fps: u32,
    info: DisplayInfo,
)
    requires
        0 <= index < 0x1_0000_0000,
        described(monitor, index, target_fps, info),
    ensures
        info.id == index,
        info.is_primary <==> index == 0,
        monitor.width matches Some(w) ==> info.width == w,
        monitor.width is None ==> info.width == 0,
        monitor.height matches Some(h) ==> info.height == h,
        monitor.height is None ==> info.height == 0,
        monitor.refresh_hz matches Some(hz) ==> info.refresh_hz == hz,
        monitor.refresh_hz is None ==> info.refresh_hz == target_fps,
        info.scale.bits == 0x3f80_0000,
        monitor.name matches Some(name) ==> info.name@ == name@,
        monitor.name is None ==> info.name@.len() > 9 && crate::text::number(info.name@.skip(9))
            == Some((index + 1) as nat),
{
    if monitor.name is None {
        reveal_strlit("Màn hình ");
        let n = (index + 1) as nat;
        crate::text::decimals_read_back(n);
        assert(info.name@.skip(9) =~= crate::text::decimal(n));
    }
}

/// A monitor is too large where either edge is longer than the limit; without a limit none is, and
/// an edge that could not be read is no obstacle.
pub proof fn either_edge_may_be_too_long(config: CaptureConfig, monitor: Monitor)
    ensures
        config.max_dimension is None ==> !too_large(config, monitor),
        config.max_dimension matches Some(limit) ==> (too_large(config, monitor) <==> (
        monitor.width matches Some(w) && w > limit) || (monitor.height matches Some(h) && h > limit)),
{
}

/// A recording is set up as wished where the system can: with or without the pointer and the border,
/// as often as wished, with at least three textures. It is refused for colours that it does not
/// have, for a screen that is not there or too large, and where the system cannot record at all, in
/// this order.
pub proof fn recordings_are_set_up_as_wished(
    config: &CaptureConfig,
    monitor: &Option<Monitor>,
    support: Support,
    r: Result<(CaptureSettings, DisplayInfo), CaptureError>,
)
    requires
        config.queue_depth <= usize::MAX,
        call_ensures(prepare, (config, monitor, support), r),
    ensures
        ({
            let plain = config.pixel_format is Bgra32;
            let large = config.max_dimension is Some && *monitor is Some && ({
                let limit = config.max_dimension->0;
                let m = (*monitor)->0;
                (m.width matches Some(w) && w > limit) || (m.height matches Some(h) && h > limit)
            });
            &&& r is Ok <==> plain && *monitor is Some && !large && support.capture
            &&& !plain ==> (r matches Err(CaptureError::Platform(_)))
            &&& plain && *monitor is None ==> r == Err::<
                (CaptureSettings, DisplayInfo),
                CaptureError,
            >(CaptureError::DisplayNotFound(config.display_id))
            &&& plain && large ==> (r matches Err(CaptureError::Platform(_)))
            &&& plain && *monitor is Some && !large && !support.capture ==> r == Err::<
                (CaptureSettings, DisplayInfo),
                CaptureError,
            >(CaptureError::Unsupported)
            &&& r matches Ok(set) ==> {
                &&& set.0.ring_size >= 3
                &&& config.queue_depth >= 3 ==> set.0.ring_size == config.queue_depth
                &&& set.0.without_border == support.border
                &&& set.0.cursor is Default <==> !support.cursor
                &&& set.0.cursor is With <==> support.cursor && config.show_cursor
                &&& set.0.cursor is Without <==> support.cursor && !config.show_cursor
                &&& set.0.interval_us is Some <==> support.interval
                &&& support.interval && config.target_fps > 0 ==> (
                set.0.interval_us matches Some(us) && us * config.target_fps <= 1_000_000 < (us + 1)
                    * config.target_fps)
                &&& support.interval && config.target_fps == 0 ==> set.0.interval_us == Some(
                    1_000_000u64,
                )
                &&& set.1.id == config.display_id
                &&& set.1.is_primary <==> config.display_id == 0
            }
        }),
{
    either_edge_may_be_too_long(*config, monitor->0);
    let fps = config.target_fps as int;
    if fps > 0 {
        let us = 1_000_000int / fps;
        vstd::arithmetic::div_mod::lemma_fundamental_div_mod(1_000_000, fps);
        vstd::arithmetic::div_mod::lemma_mod_bound(1_000_000, fps);
        assert(us * fps == fps * us) by (nonlinear_arith);
        assert((us + 1) * fps == fps * us + fps) by (nonlinear_arith);
    }
    if let Ok(set) = r {
        assert(described(monitor->0, config.display_id as int, config.target_fps, set.1));
        assert(longer(set.1.width, set.1.height) == edge_of(monitor->0));
    }
}

/// A new picture is kept with its size and time, under the next number; the one before it, where
/// nobody took it, is counted as dropped.
pub proof fn new_pictures_are_kept<S>(
    capturer: &mut WgcScreenCapturer<S>,
    surface: S,
    width: u32,
    height: u32,
    capture_us: u64,
)
    requires
        old(capturer).wf(),
        old(capturer).place().can_count(),
        old(capturer).seen() < 0xffff_ffff_ffff_ffff,
        call_ensures(
            WgcScreenCapturer::<S>::arrived,
            (capturer, surface, width, height, capture_us),
            (),
        ),
    ensures
        final(capturer).place().held() matches Some(frame) && frame.surface == surface
            && frame.width == width && frame.height == height && frame.capture_us == capture_us
            && frame.frame_index == old(capturer).seen() + 1,
        final(capturer).seen() == old(capturer).seen() + 1,
        final(capturer).place().counts().frames_delivered == old(capturer).place().counts().frames_delivered + 1,
        final(capturer).place().counts().frames_dropped - old(capturer).place().counts().frames_dropped == if old(capturer).place().held() is Some {
            1int
        } else {
            0
        },
{
}

/// The textures take turns: the next picture goes into the next one, and after the last comes the
/// first.
pub proof fn textures_take_turns<S>(
    capturer: &WgcScreenCapturer<S>,
    next: &WgcScreenCapturer<S>,
    now: usize,
    after: usize,
)
    requires
        capturer.wf(),
        next.wf(),
        next.ring() == capturer.ring(),
        next.seen() == capturer.seen() + 1,
        call_ensures(WgcScreenCapturer::<S>::target, (capturer,), now),
        call_ensures(WgcScreenCapturer::<S>::target, (next,), after),
    ensures
        now < capturer.ring(),
        now + 1 < capturer.ring() ==> after == now + 1,
        now + 1 == capturer.ring() ==> after == 0,
{
    let n = capturer.ring() as int;
    let k = capturer.seen() as int;
    assert(k % n == now);
    vstd::arithmetic::div_mod::lemma_add_mod_noop_right(1, k, n);
    if now + 1 < n {
        vstd::arithmetic::div_mod::lemma_small_mod((now + 1) as nat, n as nat);
    } else {
        vstd::arithmetic::div_mod::lemma_mod_self_0(n);
    }
}

/// Textures are made anew exactly where the size is another one.
pub proof fn other_sizes_need_other_textures<S>(
    capturer: &WgcScreenCapturer<S>,
    width: u32,
    height: u32,
    needed: bool,
)
    requires
        call_ensures(WgcScreenCapturer::<S>::needs_ring, (capturer, width, height), needed),
    ensures
        !needed <==> (capturer.built() matches Some(size) && size.0 == width && size.1 == height),
{
}

/// Frames come out first, then the reason of the end, once, then that it ended; while nothing is
/// there, only the time can run out. Nothing else of the capturer changes.
pub proof fn frames_come_before_the_end<S>(
    capturer: &mut WgcScreenCapturer<S>,
    expired: bool,
    r: Option<Result<CapturedFrame<S>, CaptureError>>,
)
    requires
        old(capturer).wf(),
        call_ensures(WgcScreenCapturer::<S>::next_frame, (capturer, expired), r),
    ensures
        ({
            let before = old(capturer).place();
            let after = final(capturer).place();
            &&& before.held() matches Some(frame) ==> r == Some(
                Ok::<CapturedFrame<S>, CaptureError>(frame),
            ) && after.reason() == before.reason()
            &&& before.held() is None && before.closed_down() && before.reason() is None ==> (
            r matches Some(Err(CaptureError::Stopped)))
            &&& before.held() is None && before.closed_down() ==> (
            before.reason() matches Some(message) ==> r == Some(
                Err::<CapturedFrame<S>, CaptureError>(CaptureError::Platform(message)),
            )) && after.reason() is None
            &&& before.held() is None && !before.closed_down() ==> (r is Some <==> expired) && (
            r is Some ==> (r matches Some(Err(CaptureError::Timeout))))
            &&& after.held() is None
            &&& after.counts() == before.counts() && after.closed_down() == before.closed_down()
            &&& final(capturer).seen() == old(capturer).seen() && final(capturer).shown() == old(capturer).shown() && final(capturer).on() == old(capturer).on()
        }),
{
}

/// Capturing is stopped once: the second time says that it was stopped. What was captured and not
/// yet taken stays.
pub proof fn stopping_twice_is_stopping_once<S>(
    first: &mut WgcScreenCapturer<S>,
    second: &mut WgcScreenCapturer<S>,
    one: bool,
    two: bool,
)
    requires
        old(first).wf(),
        call_ensures(WgcScreenCapturer::<S>::stop, (first,), one),
        *old(second) == *final(first),
        call_ensures(WgcScreenCapturer::<S>::stop, (second,), two),
    ensures
        one == old(first).on(),
        !two,
        !final(first).on(),
        old(first).on() ==> final(first).place().closed_down(),
        final(first).place().held() == old(first).place().held(),
        final(first).place().counts() == old(first).place().counts(),
        final(first).shown() == old(first).shown(),
{
}

/// A surface hands out what it was made of.
pub proof fn surfaces_keep_their_parts<T, D>(
    texture: T,
    device: D,
    width: u32,
    height: u32,
    s: D3dSurface<T, D>,
    a: &T,
    b: &D,
    w: u32,
    h: u32,
)
    requires
        call_ensures(D3dSurface::<T, D>::new, (texture, device, width, height), s),
        call_ensures(D3dSurface::<T, D>::texture, (&s,), a),
        call_ensures(D3dSurface::<T, D>::device, (&s,), b),
        call_ensures(D3dSurface::<T, D>::width, (&s,), w),
        call_ensures(D3dSurface::<T, D>::height, (&s,), h),
    ensures
        *a == texture,
        *b == device,
        w == width,
        h == height,
{
}

/// A failure to begin keeps its own error, or its reason, or says that there is no support.
pub proof fn failures_keep_their_reason(failure: StartFailure, r: CaptureError)
    requires
        call_ensures(classify_start, (failure,), r),
    ensures
        failure matches StartFailure::Handler(e) ==> r == e,
        failure is Unsupported ==> r is Unsupported,
        failure matches StartFailure::Other(reason) ==> r == CaptureError::Platform(reason),
{
}

/// Textures that could be made have the wished size; where they could not, capturing ends and says
/// the size and the cause.
pub proof fn failed_textures_end_the_capture<S>(
    capturer: &mut WgcScreenCapturer<S>,
    width: u32,
    height: u32,
    failure: Option<String>,
    r: Result<(), CaptureError>,
)
    requires
        old(capturer).wf(),
        call_ensures(WgcScreenCapturer::<S>::rebuild_ring, (capturer, width, height, failure), r),
    ensures
        r is Ok <==> failure is None,
        failure is None ==> final(capturer).built() == Some((width, height)),
        failure is Some ==> final(capturer).built() == old(capturer).built() && final(capturer).place().closed_down() && final(capturer).place().reason() is Some && (
        r matches Err(CaptureError::Platform(_))),
        final(capturer).ring() == old(capturer).ring() && final(capturer).shown() == old(capturer).shown() && final(capturer).place().held() == old(capturer).place().held(),
{
}

/// A recording begins on, with nothing held and no textures, and shows the given display.
pub proof fn recordings_begin_empty<S>(
    settings: &CaptureSettings,
    display: DisplayInfo,
    r: WgcScreenCapturer<S>,
    closing: &mut WgcScreenCapturer<S>,
)
    requires
        call_ensures(WgcScreenCapturer::<S>::start, (settings, display), r),
        old(closing).wf(),
        call_ensures(WgcScreenCapturer::<S>::closed, (closing,), ()),
    ensures
        r.on() && r.seen() == 0 && r.built() is None && r.place().held() is None
            && !r.place().closed_down() && r.place().reason() is None,
        r.shown() == display,
        r.ring() == settings.ring_size,
        final(closing).place().closed_down(),
        final(closing).place().held() == old(closing).place().held(),
        final(closing).place().reason() == old(closing).place().reason(),
        final(closing).on() == old(closing).on(),
{
}

/// Every monitor is listed in its place, at sixty pictures a second.
pub proof fn all_monitors_are_listed(monitors: &[Monitor], r: Vec<DisplayInfo>, i: int)
    requires
        monitors@.len() <= u32::MAX,
        call_ensures(list_displays, (monitors,), r),
        0 <= i < monitors@.len(),
    ensures
        r@.len() == monitors@.len(),
        described(monitors@[i], i, 60, r@[i]),
{
}

} // verus!
