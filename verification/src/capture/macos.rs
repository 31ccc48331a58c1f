//! Capturing with ScreenCaptureKit.
//!
//! The system calls back on a queue of its own with a handle to the frame; it goes into the
//! one-frame slot that the encoder takes from.

use vstd::prelude::*;
use vstd::string::StringExecFns;

use crate::capture::{
    CaptureConfig, CaptureError, CaptureStats, CapturedFrame, DisplayInfo, FrameSlot, PixelFormat,
};
use crate::protocol::control::Real32;
use crate::text::{push_decimal, push_signed};

verus! {

/// Four characters as a number, the first one highest.
pub fn fourcc(code: &[u8; 4]) -> (r: u32)
    ensures
        r == code@[0] * 0x100_0000 + code@[1] * 0x1_0000 + code@[2] * 0x100 + code@[3],
{
    code[0] as u32 * 0x100_0000 + code[1] as u32 * 0x1_0000 + code[2] as u32 * 0x100
        + code[3] as u32
}

/// `SCStreamErrorUserDeclined`.
pub const USER_DECLINED: i64 = -3801;

/// `SCStreamErrorMissingEntitlements`.
pub const MISSING_ENTITLEMENTS: i64 = -3803;

/// What an error of the system means to us. The number decides, for the words come in the
/// system's language.
pub fn classify_error(code: i64, message: &str) -> (r: CaptureError)
    ensures
        match r {
            CaptureError::PermissionDenied => code == USER_DECLINED || code
                == MISSING_ENTITLEMENTS,
            CaptureError::Platform(reason) => code != USER_DECLINED && code != MISSING_ENTITLEMENTS
                && reason@ == message@ + " (mã "@ + crate::text::signed(code as int) + ")"@,
            _ => false,
        },
{
    if code == USER_DECLINED || code == MISSING_ENTITLEMENTS {
        return CaptureError::PermissionDenied;
    }
    let mut s: String = message.to_owned();
    s.append(" (mã ");
    push_signed(&mut s, code);
    s.append(")");
    CaptureError::Platform(s)
}

/// The system's answer to a request.
#[derive(Debug)]
pub enum Reply {
    Done,
    Failed { code: i64, message: String },
    /// It never called back, which it mostly does for want of the permission to record.
    Silent,
}

/// What an answer comes to.
pub fn answered(reply: &Reply) -> (r: Result<(), CaptureError>)
    ensures
        match *reply {
            Reply::Done => r == Ok::<(), CaptureError>(()),
            Reply::Silent => r == Err::<(), CaptureError>(CaptureError::PermissionDenied),
            Reply::Failed { code, message } => match r {
                Err(CaptureError::PermissionDenied) => code == USER_DECLINED || code
                    == MISSING_ENTITLEMENTS,
                Err(CaptureError::Platform(reason)) => code != USER_DECLINED && code
                    != MISSING_ENTITLEMENTS && reason@ == message@ + " (mã "@
                    + crate::text::signed(code as int) + ")"@,
                _ => false,
            },
        },
{
    match reply {
        Reply::Done => Ok(()),
        Reply::Failed { code, message } => Err(classify_error(*code, message.as_str())),
        Reply::Silent => Err(CaptureError::PermissionDenied),
    }
}

/// What the system says of a display, in real pixels.
#[derive(Debug, Clone, Copy, PartialEq, Eq, Structural)]
pub struct Seen {
    pub id: u32,
    pub width: u32,
    pub height: u32,
    pub scale: Real32,
}

/// The entry for a display in the list.
pub open spec fn listed(seen: Seen, index: int, info: DisplayInfo) -> bool {
    info.name@ == "Display "@ + crate::text::decimal((index + 1) as nat) && info == (DisplayInfo {
        id: seen.id,
        name: info.name,
        width: seen.width,
        height: seen.height,
        scale: seen.scale,
        refresh_hz: 60,
        is_primary: index == 0,
    })
}

/// The displays, the first one as the primary. None at all is an error.
pub fn list_displays(seen: &[Seen]) -> (r: Result<Vec<DisplayInfo>, CaptureError>)
    ensures
        match r {
            Ok(list) => seen@.len() > 0 && list@.len() == seen@.len() && forall|i: int|
                0 <= i < seen@.len() ==> #[trigger] listed(seen@[i], i, list@[i]),
            Err(CaptureError::Platform(reason)) => seen@.len() == 0 && reason@
                == "không tìm thấy màn hình nào"@,
            Err(_) => false,
        },
{
    if seen.len() == 0 {
        return Err(CaptureError::Platform("không tìm thấy màn hình nào".to_owned()));
    }
    let mut list: Vec<DisplayInfo> = Vec::new();
    let mut i: usize = 0;
    while i < seen.len()
        invariant
            i <= seen@.len(),
            list@.len() == i,
            forall|j: int| 0 <= j < i ==> #[trigger] listed(seen@[j], j, list@[j]),
        decreases seen@.len() - i,
    {
        let mut name: String = "Display ".to_owned();
        push_decimal(&mut name, i as u64 + 1);
        let info = DisplayInfo {
            id: seen[i].id,
            name,
            width: seen[i].width,
            height: seen[i].height,
            scale: seen[i].scale,
            refresh_hz: 60,
            is_primary: i == 0,
        };
        assert(listed(seen@[i as int], i as int, info));
        list.push(info);
        i += 1;
    }
    Ok(list)
}

/// Which display to capture: the first one for id 0, else the one with the id.
pub fn choose_display(ids: &[u32], display_id: u32) -> (r: Result<usize, CaptureError>)
    ensures
        match r {
            Ok(i) => i < ids@.len() && if display_id == 0 {
                i == 0
            } else {
                ids@[i as int] == display_id && forall|j: int|
                    0 <= j < i ==> #[trigger] ids@[j] != display_id
            },
            Err(e) => e == CaptureError::DisplayNotFound(display_id) && (ids@.len() == 0
                || display_id != 0 && !ids@.contains(display_id)),
        },
{
    let mut i: usize = 0;
    while i < ids.len()
        invariant
            i <= ids@.len(),
            display_id == 0 ==> i == 0,
            forall|j: int| 0 <= j < i ==> #[trigger] ids@[j] != display_id,
        decreases ids@.len() - i,
    {
        if display_id == 0 || ids[i] == display_id {
            return Ok(i);
        }
        i += 1;
    }
    Err(CaptureError::DisplayNotFound(display_id))
}

/// What is set on a stream.
#[derive(Debug, Clone, Copy, PartialEq, Eq, Structural)]
pub struct StreamSettings {
    pub width: u32,
    pub height: u32,
    pub pixel_format: u32,
    /// Frames per second at most.
    pub timescale: i32,
    pub queue_depth: u32,
    pub shows_cursor: bool,
}

/// The characters `BGRA`.
pub const BGRA: u32 = 0x4247_5241;

/// The characters `420v`.
pub const NV12: u32 = 0x3432_3076;

/// What to set for a frame of this size. Hardware encoders want even edges, and fewer than three
/// frames in the queue lose some.
pub fn stream_settings(config: &CaptureConfig, width: u32, height: u32) -> (r: StreamSettings)
    ensures
        r == (StreamSettings {
            width: crate::capture::synthetic::even(width as int),
            height: crate::capture::synthetic::even(height as int),
            pixel_format: if config.pixel_format is Bgra32 {
                BGRA
            } else {
                NV12
            },
            timescale: crate::number::as_signed(
                if config.target_fps < 1 {
                    1
                } else {
                    config.target_fps
                },
            ),
            queue_depth: if config.queue_depth < 3 {
                3
            } else {
                config.queue_depth
            },
            shows_cursor: config.show_cursor,
        }),
{
    let fps: u32 = if config.target_fps < 1 { 1 } else { config.target_fps };
    let pixel_format: u32 = match config.pixel_format {
        PixelFormat::Bgra32 => fourcc(&[0x42, 0x47, 0x52, 0x41]),
        PixelFormat::Nv12 => fourcc(&[0x34, 0x32, 0x30, 0x76]),
    };
    StreamSettings {
        width: width - width % 2,
        height: height - height % 2,
        pixel_format,
        timescale: crate::number::signed_of(fps),
        queue_depth: if config.queue_depth < 3 { 3 } else { config.queue_depth },
        shows_cursor: config.show_cursor,
    }
}

/// `SCFrameStatusComplete`.
pub const COMPLETE: i64 = 0;

pub struct MacScreenCapturer<S> {
    slot: FrameSlot<CapturedFrame<S>>,
    counter: u64,
    display: DisplayInfo,
    running: bool,
}

impl<S> MacScreenCapturer<S> {
    pub closed spec fn place(&self) -> FrameSlot<CapturedFrame<S>> {
        self.slot
    }

    pub closed spec fn seen(&self) -> u64 {
        self.counter
    }

    pub closed spec fn shown(&self) -> DisplayInfo {
        self.display
    }

    pub closed spec fn on(&self) -> bool {
        self.running
    }

    /// `settings` is what was set on the stream of the display `id`, `reply` the answer to its
    /// start.
    pub fn start(
        config: &CaptureConfig,
        settings: &StreamSettings,
        id: u32,
        scale: Real32,
        reply: &Reply,
    ) -> (r: Result<Self, CaptureError>)
        ensures
            (r is Ok) == (*reply is Done),
            match r {
                Ok(c) => c.on() && c.seen() == 0 && c.place().held() is None
                    && !c.place().closed_down() && c.place().reason() is None && c.place().counts()
                    == (CaptureStats { frames_delivered: 0, frames_dropped: 0, frames_idle: 0 })
                    && c.shown().name@ == "Display"@ && c.shown() == (DisplayInfo {
                    id,
                    name: c.shown().name,
                    width: settings.width,
                    height: settings.height,
                    scale,
                    refresh_hz: config.target_fps,
                    is_primary: true,
                }),
                Err(CaptureError::PermissionDenied) => match *reply {
                    Reply::Silent => true,
                    Reply::Failed { code, .. } => code == USER_DECLINED || code
                        == MISSING_ENTITLEMENTS,
                    Reply::Done => false,
                },
                Err(CaptureError::Platform(reason)) => match *reply {
                    Reply::Failed { code, message } => code != USER_DECLINED && code
                        != MISSING_ENTITLEMENTS && reason@ == message@ + " (mã "@
                        + crate::text::signed(code as int) + ")"@,
                    _ => false,
                },
                Err(_) => false,
            },
    {
        match answered(reply) {
            Ok(()) => {},
            Err(e) => {
                return Err(e);
            },
        }
        Ok(
            MacScreenCapturer {
                slot: FrameSlot::new(),
                counter: 0,
                display: DisplayInfo {
                    id,
                    name: "Display".to_owned(),
                    width: settings.width,
                    height: settings.height,
                    scale,
                    refresh_hz: config.target_fps,
                    is_primary: true,
                },
                running: true,
            },
        )
    }

    pub fn display(&self) -> (r: &DisplayInfo)
        ensures
            *r == self.shown(),
    {
        &self.display
    }

    /// The system called back. Only screen samples count. One marked as unchanged is noted and
    /// left: to encode it would waste power. `surface` is the picture with its size, where the
    /// sample has one.
    pub fn arrived(
        &mut self,
        of_screen: bool,
        status: Option<i64>,
        surface: Option<(S, u32, u32)>,
        capture_us: u64,
    )
        requires
            old(self).place().can_count(),
            old(self).seen() < u64::MAX,
        ensures
            final(self).shown() == old(self).shown(),
            final(self).on() == old(self).on(),
            final(self).place().closed_down() == old(self).place().closed_down(),
            final(self).place().reason() == old(self).place().reason(),
            ({
                let before = old(self).place();
                let changed = status is None || status == Some(COMPLETE);
                match surface {
                    Some((s, width, height)) if of_screen && changed => final(self).seen() == old(
                        self).seen() + 1 && final(self).place().held() == Some(
                        CapturedFrame {
                            width,
                            height,
                            capture_us,
                            frame_index: (old(self).seen() + 1) as u64,
                            surface: s,
                        },
                    ) && final(self).place().counts() == (CaptureStats {
                        frames_delivered: (before.counts().frames_delivered + 1) as u64,
                        frames_dropped: (before.counts().frames_dropped + if before.held() is Some {
                            1int
                        } else {
                            0int
                        }) as u64,
                        ..before.counts()
                    }),
                    _ => final(self).seen() == old(self).seen() && final(self).place().held()
                        == before.held() && final(self).place().counts() == (if of_screen
                        && !changed {
                        CaptureStats {
                            frames_idle: (before.counts().frames_idle + 1) as u64,
                            ..before.counts()
                        }
                    } else {
                        before.counts()
                    }),
                }
            }),
    {
        if !of_screen {
            return ;
        }
        let changed: bool = match status {
            Some(n) => n == COMPLETE,
            None => true,
        };
        if !changed {
            self.slot.note_idle();
            return ;
        }
        match surface {
            Some((surface, width, height)) => {
                self.counter = self.counter + 1;
                self.slot.put(
                    CapturedFrame {
                        width,
                        height,
                        capture_us,
                        frame_index: self.counter,
                        surface,
                    },
                );
            },
            None => {},
        }
    }

    /// The system stopped the stream.
    pub fn stopped_with(&mut self, message: String)
        ensures
            final(self).place().closed_down(),
            final(self).place().reason() == Some(message),
            final(self).place().held() == old(self).place().held(),
            final(self).place().counts() == old(self).place().counts(),
            final(self).seen() == old(self).seen(),
            final(self).shown() == old(self).shown(),
            final(self).on() == old(self).on(),
    {
        self.slot.stop(Some(message));
    }

    /// The newest frame; `None` where it is worth waiting.
    pub fn next_frame(&mut self, expired: bool) -> (r: Option<
        Result<CapturedFrame<S>, CaptureError>,
    >)
        ensures
            final(self).place().counts() == old(self).place().counts(),
            final(self).place().closed_down() == old(self).place().closed_down(),
            final(self).place().held() is None,
            final(self).seen() == old(self).seen(),
            final(self).shown() == old(self).shown(),
            final(self).on() == old(self).on(),
            match old(self).place().held() {
                Some(frame) => r == Some(Ok::<CapturedFrame<S>, CaptureError>(frame)) && final(
                    self).place().reason() == old(self).place().reason(),
                None => if old(self).place().closed_down() {
                    final(self).place().reason() is None && r == Some(
                        Err::<CapturedFrame<S>, CaptureError>(
                            match old(self).place().reason() {
                                Some(message) => CaptureError::Platform(message),
                                None => CaptureError::Stopped,
                            },
                        ),
                    )
                } else {
                    final(self).place().reason() == old(self).place().reason() && r == (
                    if expired {
                        Some(Err::<CapturedFrame<S>, CaptureError>(CaptureError::Timeout))
                    } else {
                        None
                    })
                },
            },
    {
        self.slot.take(expired)
    }

    pub fn stats(&self) -> (r: CaptureStats)
        ensures
            r == self.place().counts(),
    {
        self.slot.stats()
    }

    /// Whether the stream is to be stopped now: it is, once.
    pub fn stop(&mut self) -> (r: bool)
        ensures
            r == old(self).on(),
            !final(self).on(),
            final(self).place().closed_down() == (old(self).on() || old(self).place().closed_down()),
            final(self).place().held() == old(self).place().held(),
            final(self).place().reason() == old(self).place().reason(),
            final(self).place().counts() == old(self).place().counts(),
            final(self).seen() == old(self).seen(),
            final(self).shown() == old(self).shown(),
    {
        if !self.running {
            return false;
        }
        self.running = false;
        self.slot.stop(None);
        true
    }
}

/// A display is listed with its own number and size; the first one is the main one, and they are
/// named from 1 on.
pub proof fn displays_are_listed_as_seen(seen: Seen, index: int, info: DisplayInfo)
    requires
        index >= 0,
        listed(seen, index, info),
    ensures
        info.id == seen.id,
        info.width == seen.width,
        info.height == seen.height,
        info.scale == seen.scale,
        info.refresh_hz == 60,
        info.is_primary <==> index == 0,
        info.name@.len() > 8 ==> crate::text::number(info.name@.skip(8)) == Some((index + 1) as nat),
        info.name@.len() > 8,
{
    reveal_strlit("Display ");
    let n = (index + 1) as nat;
    crate::text::decimals_read_back(n);
    assert(info.name@.skip(8) =~= crate::text::decimal(n));
}

/// A new picture of the screen is kept with its size and time, under the next number, and can be
/// taken. One that is not of the screen is nothing, and one that did not change is only counted.
pub proof fn new_pictures_are_kept<S>(
    capturer: &mut MacScreenCapturer<S>,
    of_screen: bool,
    status: Option<i64>,
    surface: Option<(S, u32, u32)>,
    capture_us: u64,
)
    requires
        old(capturer).place().can_count(),
        old(capturer).seen() < 0xffff_ffff_ffff_ffff,
        call_ensures(
            MacScreenCapturer::<S>::arrived,
            (capturer, of_screen, status, surface, capture_us),
            (),
        ),
    ensures
        ({
            let fresh = status is None || status == Some(0i64);
            let before = old(capturer).place().counts();
            let after = final(capturer).place().counts();
            &&& of_screen && fresh ==> (surface matches Some(part) ==> (final(capturer).place().held() matches Some(frame) && frame.surface == part.0 && frame.width == part.1
                && frame.height == part.2 && frame.capture_us == capture_us && frame.frame_index
                == old(capturer).seen() + 1) && after.frames_delivered == before.frames_delivered
                + 1)
            &&& !of_screen ==> final(capturer).place().held() == old(capturer).place().held()
                && after == before
            &&& of_screen && !fresh ==> final(capturer).place().held() == old(capturer).place().held() && after.frames_idle == before.frames_idle + 1
                && after.frames_delivered == before.frames_delivered
            &&& of_screen && fresh && surface is None ==> final(capturer).place().held() == old(capturer).place().held() && after == before
        }),
{
}

/// A stream has even edges, at least three frames in hand and one a second, and shows the pointer
/// where that is wished for.
pub proof fn streams_are_set_up_as_wished(
    config: &CaptureConfig,
    width: u32,
    height: u32,
    r: StreamSettings,
)
    requires
        call_ensures(stream_settings, (config, width, height), r),
    ensures
        r.width % 2 == 0 && (r.width == width || r.width == width - 1),
        r.height % 2 == 0 && (r.height == height || r.height == height - 1),
        config.queue_depth >= 3 ==> r.queue_depth == config.queue_depth,
        config.queue_depth < 3 ==> r.queue_depth == 3,
        r.shows_cursor == config.show_cursor,
        1 <= config.target_fps < 0x8000_0000 ==> r.timescale == config.target_fps,
        config.target_fps == 0 ==> r.timescale == 1,
        config.pixel_format is Bgra32 ==> r.pixel_format == 0x4247_5241,
        !(config.pixel_format is Bgra32) ==> r.pixel_format == 0x3432_3076,
{
}

/// Display 0 is the first one; any other number is looked for, and told where it is not there.
pub proof fn displays_are_chosen_by_number(
    ids: &[u32],
    display_id: u32,
    r: Result<usize, CaptureError>,
)
    requires
        call_ensures(choose_display, (ids, display_id), r),
    ensures
        r is Ok <==> ids@.len() > 0 && (display_id == 0 || ids@.contains(display_id)),
        display_id == 0 ==> (r matches Ok(i) ==> i == 0),
        display_id != 0 ==> (r matches Ok(i) ==> i < ids@.len() && ids@[i as int] == display_id),
        r matches Err(e) ==> e == CaptureError::DisplayNotFound(display_id),
{
}

/// Two numbers mean that recording is not allowed; every other failure is told with its number.
pub proof fn two_numbers_mean_no_permission(code: i64, message: &str, r: CaptureError)
    requires
        call_ensures(classify_error, (code, message), r),
    ensures
        r is PermissionDenied <==> code == -3801 || code == -3803,
        r is Platform <==> !(code == -3801 || code == -3803),
        r matches CaptureError::Platform(words) ==> words@ == message@ + " (mã "@
            + crate::text::signed(code as int) + ")"@,
{
}

/// Frames come out first, then the reason of the end, once, then that it ended; while nothing is
/// there, only the time can run out. Nothing else of the capturer changes.
pub proof fn frames_come_before_the_end<S>(
    capturer: &mut MacScreenCapturer<S>,
    expired: bool,
    r: Option<Result<CapturedFrame<S>, CaptureError>>,
)
    requires
        call_ensures(MacScreenCapturer::<S>::next_frame, (capturer, expired), r),
    ensures
        ({
            let before = old(capturer).place();
            let after = final(capturer).place();
            &&& before.held() matches Some(frame) ==> r == Some(
                Ok::<CapturedFrame<S>, CaptureError>(frame),
            ) && after.reason() == before.reason()
            &&& before.held() is None && before.closed_down() && before.reason() is None ==> (
            r matches Some(Err(CaptureError::Stopped)))
            &&& before.held() is None && before.closed_down() ==> (
            before.reason() matches Some(message) ==> r == Some(
                Err::<CapturedFrame<S>, CaptureError>(CaptureError::Platform(message)),
            )) && after.reason() is None
            &&& before.held() is None && !before.closed_down() ==> (r is Some <==> expired) && (
            r is Some ==> (r matches Some(Err(CaptureError::Timeout))))
            &&& after.held() is None
            &&& after.counts() == before.counts() && after.closed_down() == before.closed_down()
            &&& final(capturer).seen() == old(capturer).seen() && final(capturer).shown() == old(capturer).shown() && final(capturer).on() == old(capturer).on()
        }),
{
}

/// Capturing is stopped once: the second time says that it was stopped. What was captured and not
/// yet taken stays.
pub proof fn stopping_twice_is_stopping_once<S>(
    first: &mut MacScreenCapturer<S>,
    second: &mut MacScreenCapturer<S>,
    one: bool,
    two: bool,
)
    requires
        call_ensures(MacScreenCapturer::<S>::stop, (first,), one),
        *old(second) == *final(first),
        call_ensures(MacScreenCapturer::<S>::stop, (second,), two),
    ensures
        one == old(first).on(),
        !two,
        !final(first).on(),
        old(first).on() ==> final(first).place().closed_down(),
        final(first).place().held() == old(first).place().held(),
        final(first).place().counts() == old(first).place().counts(),
        final(first).shown() == old(first).shown(),
{
}

/// A code of four characters is read with the first one highest.
pub proof fn the_first_character_is_highest(code: &[u8; 4], r: u32)
    requires
        call_ensures(fourcc, (code,), r),
    ensures
        r == code@[3] + 0x100 * (code@[2] + 0x100 * (code@[1] + 0x100 * code@[0])),
{
}

/// Every display that was seen is listed in its place; there is an error exactly where none was.
pub proof fn all_displays_are_listed(seen: &[Seen], r: Result<Vec<DisplayInfo>, CaptureError>)
    requires
        call_ensures(list_displays, (seen,), r),
    ensures
        r is Err <==> seen@.len() == 0,
        r matches Ok(list) ==> list@.len() == seen@.len(),
        r is Err ==> r matches Err(CaptureError::Platform(_)),
{
}

/// A stream that began shows the chosen display in the size and at the rate that were set up, and
/// has nothing yet; one that did not begin is no capturer.
pub proof fn streams_begin_empty<S>(
    config: &CaptureConfig,
    settings: &StreamSettings,
    id: u32,
    scale: Real32,
    reply: &Reply,
    r: Result<MacScreenCapturer<S>, CaptureError>,
)
    requires
        call_ensures(MacScreenCapturer::<S>::start, (config, settings, id, scale, reply), r),
    ensures
        r is Ok <==> *reply is Done,
        r matches Ok(c) ==> c.on() && c.seen() == 0 && c.place().held() is None
            && !c.place().closed_down() && c.shown().id == id && c.shown().width == settings.width
            && c.shown().height == settings.height && c.shown().scale == scale
            && c.shown().refresh_hz == config.target_fps && c.shown().is_primary,
        *reply is Silent ==> r matches Err(CaptureError::PermissionDenied),
{
}

/// A stream that ended on its own leaves its reason and what is not yet taken.
pub proof fn ended_streams_leave_their_reason<S>(
    capturer: &mut MacScreenCapturer<S>,
    message: String,
)
    requires
        call_ensures(MacScreenCapturer::<S>::stopped_with, (capturer, message), ()),
    ensures
        final(capturer).place().closed_down(),
        final(capturer).place().reason() == Some(message),
        final(capturer).place().held() == old(capturer).place().held(),
        final(capturer).place().counts() == old(capturer).place().counts(),
        final(capturer).on() == old(capturer).on(),
{
}

} // verus!
