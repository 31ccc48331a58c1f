//! Capturing the screen.
//!
//! A frame stays in the graphics card's memory; what is passed on is a handle. Its type is the
//! platform's own, so it is a parameter here.

use vstd::prelude::*;
use vstd::string::StringExecFns;

use crate::protocol::control::Real32;
use crate::text::push_decimal;

pub mod macos;
pub mod synthetic;
pub mod windows;

verus! {

#[derive(Debug, Clone, PartialEq, Eq)]
pub enum CaptureError {
    /// The system does not let us record the screen.
    PermissionDenied,
    DisplayNotFound(u32),
    /// No frame came in time.
    Timeout,
    Stopped,
    Platform(String),
    Unsupported,
}

impl CaptureError {
    pub open spec fn text(self) -> Seq<char> {
        match self {
            CaptureError::PermissionDenied =>
                "hệ điều hành từ chối quyền quay màn hình — cấp quyền trong System Settings > Privacy & Security > Screen Recording rồi chạy lại"@,
            CaptureError::DisplayNotFound(id) => "không tìm thấy màn hình có id "@
                + crate::text::decimal(id as nat),
            CaptureError::Timeout => "chưa có frame nào trong thời gian chờ"@,
            CaptureError::Stopped => "luồng capture đã dừng"@,
            CaptureError::Platform(reason) => "lỗi từ hệ thống: "@ + reason@,
            CaptureError::Unsupported => "nền tảng này chưa được hỗ trợ"@,
        }
    }

    /// The error in words.
    pub fn message(&self) -> (s: String)
        ensures
            s@ == self.text(),
    {
        let mut s: String = String::new();
        match self {
            CaptureError::PermissionDenied => {
                s.append(
                    "hệ điều hành từ chối quyền quay màn hình — cấp quyền trong System Settings > Privacy & Security > Screen Recording rồi chạy lại",
                );
            },
            CaptureError::DisplayNotFound(id) => {
                s.append("không tìm thấy màn hình có id ");
                push_decimal(&mut s, *id as u64);
            },
            CaptureError::Timeout => {
                s.append("chưa có frame nào trong thời gian chờ");
            },
            CaptureError::Stopped => {
                s.append("luồng capture đã dừng");
            },
            CaptureError::Platform(reason) => {
                s.append("lỗi từ hệ thống: ");
                s.append(reason.as_str());
            },
            CaptureError::Unsupported => {
                s.append("nền tảng này chưa được hỗ trợ");
            },
        }
        assert(s@ =~= self.text());
        s
    }
}

#[derive(Debug, Clone, PartialEq)]
pub struct DisplayInfo {
    pub id: u32,
    pub name: String,
    /// In real pixels, the Retina scale counted.
    pub width: u32,
    pub height: u32,
    pub scale: Real32,
    pub refresh_hz: u32,
    pub is_primary: bool,
}

#[derive(Debug, Clone, Copy, PartialEq, Eq, Structural)]
pub enum PixelFormat {
    /// Every pixel keeps its colour.
    Bgra32,
    /// Colour is reduced at once, which saves memory bandwidth.
    Nv12,
}

#[derive(Debug, Clone, Copy, PartialEq, Eq, Structural)]
pub struct CaptureConfig {
    pub display_id: u32,
    pub target_fps: u32,
    pub show_cursor: bool,
    pub pixel_format: PixelFormat,
    /// Limit of the longer edge, the shape kept. `None` keeps the native resolution.
    pub max_dimension: Option<u32>,
    /// Frames that the system may hold. Small means low latency; below 3 frames get lost.
    pub queue_depth: u32,
}

impl Default for CaptureConfig {
    fn default() -> (r: Self)
        ensures
            r == (CaptureConfig {
                display_id: 0,
                target_fps: 60,
                show_cursor: true,
                pixel_format: PixelFormat::Bgra32,
                max_dimension: None,
                queue_depth: 3,
            }),
    {
        CaptureConfig {
            display_id: 0,
            target_fps: 60,
            show_cursor: true,
            pixel_format: PixelFormat::Bgra32,
            max_dimension: None,
            queue_depth: 3,
        }
    }
}

/// A frame just captured.
#[derive(Debug)]
pub struct CapturedFrame<S> {
    pub width: u32,
    pub height: u32,
    /// Microseconds since the Unix epoch, taken as the frame came in.
    pub capture_us: u64,
    pub frame_index: u64,
    pub surface: S,
}

#[derive(Debug, Clone, Copy, PartialEq, Eq, Structural)]
pub struct CaptureStats {
    pub frames_delivered: u64,
    /// Frames that nobody took before the next one came.
    pub frames_dropped: u64,
    /// Frames that the system marked as unchanged.
    pub frames_idle: u64,
}

impl Default for CaptureStats {
    fn default() -> (r: Self)
        ensures
            r == (CaptureStats { frames_delivered: 0, frames_dropped: 0, frames_idle: 0 }),
    {
        CaptureStats { frames_delivered: 0, frames_dropped: 0, frames_idle: 0 }
    }
}

/// The place between the thread that captures and the one that encodes. It holds one frame: a
/// newer one takes the place of one that nobody took, for the newest picture is worth more than
/// every picture.
pub struct FrameSlot<T> {
    item: Option<T>,
    stats: CaptureStats,
    stopped: bool,
    error: Option<String>,
}

impl<T> FrameSlot<T> {
    pub closed spec fn held(&self) -> Option<T> {
        self.item
    }

    pub closed spec fn counts(&self) -> CaptureStats {
        self.stats
    }

    pub closed spec fn closed_down(&self) -> bool {
        self.stopped
    }

    /// Why it was closed, as long as nobody has been told.
    pub closed spec fn reason(&self) -> Option<String> {
        self.error
    }

    /// The counters can grow once more.
    pub open spec fn can_count(&self) -> bool {
        self.counts().frames_delivered < u64::MAX && self.counts().frames_dropped < u64::MAX
            && self.counts().frames_idle < u64::MAX
    }

    pub fn new() -> (r: Self)
        ensures
            r.held() is None,
            r.counts() == (CaptureStats {
                frames_delivered: 0,
                frames_dropped: 0,
                frames_idle: 0,
            }),
            !r.closed_down(),
            r.reason() is None,
    {
        FrameSlot { item: None, stats: CaptureStats::default(), stopped: false, error: None }
    }

    /// A new frame.
    pub fn put(&mut self, item: T)
        requires
            old(self).can_count(),
        ensures
            final(self).held() == Some(item),
            final(self).counts() == (CaptureStats {
                frames_delivered: (old(self).counts().frames_delivered + 1) as u64,
                frames_dropped: (old(self).counts().frames_dropped + if old(self).held() is Some {
                    1int
                } else {
                    0int
                }) as u64,
                ..old(self).counts()
            }),
            final(self).closed_down() == old(self).closed_down(),
            final(self).reason() == old(self).reason(),
    {
        if self.item.is_some() {
            self.stats.frames_dropped = self.stats.frames_dropped + 1;
        }
        self.stats.frames_delivered = self.stats.frames_delivered + 1;
        self.item = Some(item);
    }

    /// The system said that nothing changed.
    pub fn note_idle(&mut self)
        requires
            old(self).can_count(),
        ensures
            final(self).held() == old(self).held(),
            final(self).counts() == (CaptureStats {
                frames_idle: (old(self).counts().frames_idle + 1) as u64,
                ..old(self).counts()
            }),
            final(self).closed_down() == old(self).closed_down(),
            final(self).reason() == old(self).reason(),
    {
        self.stats.frames_idle = self.stats.frames_idle + 1;
    }

    /// Closes the slot. A reason that is given takes the place of an earlier one.
    pub fn stop(&mut self, error: Option<String>)
        ensures
            final(self).closed_down(),
            final(self).held() == old(self).held(),
            final(self).counts() == old(self).counts(),
            final(self).reason() == (if error is Some {
                error
            } else {
                old(self).reason()
            }),
    {
        self.stopped = true;
        if error.is_some() {
            self.error = error;
        }
    }

    pub fn stats(&self) -> (r: CaptureStats)
        ensures
            r == self.counts(),
    {
        self.stats
    }

    /// The frame, or why none will come; `None` where it is worth waiting. `expired` is whether
    /// the time for that is over. The last frame is handed out even after the slot was closed.
    pub fn take(&mut self, expired: bool) -> (r: Option<Result<T, CaptureError>>)
        ensures
            final(self).counts() == old(self).counts(),
            final(self).closed_down() == old(self).closed_down(),
            final(self).held() is None,
            match old(self).held() {
                Some(item) => r == Some(Ok::<T, CaptureError>(item)) && final(self).reason() == old(
                    self).reason(),
                None => if old(self).closed_down() {
                    final(self).reason() is None && r == Some(
                        Err::<T, CaptureError>(
                            match old(self).reason() {
                                Some(message) => CaptureError::Platform(message),
                                None => CaptureError::Stopped,
                            },
                        ),
                    )
                } else {
                    final(self).reason() == old(self).reason() && r == (if expired {
                        Some(Err::<T, CaptureError>(CaptureError::Timeout))
                    } else {
                        None
                    })
                },
            },
    {
        match self.item.take() {
            Some(item) => Some(Ok(item)),
            None => {
                if self.stopped {
                    return match self.error.take() {
                        Some(message) => Some(Err(CaptureError::Platform(message))),
                        None => Some(Err(CaptureError::Stopped)),
                    };
                }
                if expired {
                    Some(Err(CaptureError::Timeout))
                } else {
                    None
                }
            },
        }
    }
}

/// The newest frame counts: what was put last comes out, whatever was there before. One that nobody
/// took is counted as dropped, and every one as delivered.
pub proof fn the_newest_frame_comes_out<T>(
    putting: &mut FrameSlot<T>,
    taking: &mut FrameSlot<T>,
    item: T,
    expired: bool,
    out: Option<Result<T, CaptureError>>,
)
    requires
        old(putting).can_count(),
        call_ensures(FrameSlot::<T>::put, (putting, item), ()),
        *old(taking) == *final(putting),
        call_ensures(FrameSlot::<T>::take, (taking, expired), out),
    ensures
        out matches Some(Ok(frame)) && frame == item,
        final(taking).held() is None,
        final(taking).counts().frames_delivered == old(putting).counts().frames_delivered + 1,
        final(taking).counts().frames_idle == old(putting).counts().frames_idle,
        old(putting).held() is None ==> final(taking).counts().frames_dropped == old(putting).counts().frames_dropped,
        old(putting).held() is Some ==> final(taking).counts().frames_dropped == old(putting).counts().frames_dropped + 1,
{
}

/// Where no frame is there, whoever waits goes on waiting until the time is up; a slot that was
/// closed says why, once, and from then on only that it is closed.
pub proof fn a_closed_slot_says_why_once<T>(
    closing: &mut FrameSlot<T>,
    first: &mut FrameSlot<T>,
    second: &mut FrameSlot<T>,
    error: Option<String>,
    expired: bool,
    one: Option<Result<T, CaptureError>>,
    two: Option<Result<T, CaptureError>>,
)
    requires
        old(closing).held() is None,
        old(closing).reason() is None,
        call_ensures(FrameSlot::<T>::stop, (closing, error), ()),
        *old(first) == *final(closing),
        call_ensures(FrameSlot::<T>::take, (first, expired), one),
        *old(second) == *final(first),
        call_ensures(FrameSlot::<T>::take, (second, expired), two),
    ensures
        error matches Some(words) ==> one == Some(
            Err::<T, CaptureError>(CaptureError::Platform(words)),
        ),
        error is None ==> one == Some(Err::<T, CaptureError>(CaptureError::Stopped)),
        two == Some(Err::<T, CaptureError>(CaptureError::Stopped)),
{
}

/// A slot that is open and empty gives nothing before the time is up, and says so after.
pub proof fn an_empty_slot_waits<T>(
    slot: &mut FrameSlot<T>,
    expired: bool,
    out: Option<Result<T, CaptureError>>,
)
    requires
        old(slot).held() is None,
        !old(slot).closed_down(),
        call_ensures(FrameSlot::<T>::take, (slot, expired), out),
    ensures
        !expired ==> out is None,
        expired ==> out == Some(Err::<T, CaptureError>(CaptureError::Timeout)),
        final(slot).counts() == old(slot).counts(),
{
}

/// A picture that did not change is counted as idle, and touches no frame.
pub proof fn unchanged_pictures_are_idle<T>(slot: &mut FrameSlot<T>)
    requires
        old(slot).can_count(),
        call_ensures(FrameSlot::<T>::note_idle, (slot,), ()),
    ensures
        final(slot).held() == old(slot).held(),
        final(slot).counts().frames_idle == old(slot).counts().frames_idle + 1,
        final(slot).counts().frames_delivered == old(slot).counts().frames_delivered,
        final(slot).counts().frames_dropped == old(slot).counts().frames_dropped,
{
}

/// The words of an error say the display or the reason.
pub proof fn errors_say_their_reason(error: &CaptureError, s: String)
    requires
        call_ensures(CaptureError::message, (error,), s),
    ensures
        *error matches CaptureError::DisplayNotFound(id) ==> crate::text::says(
            s@,
            crate::text::decimal(id as nat),
        ),
        *error matches CaptureError::Platform(reason) ==> crate::text::says(s@, reason@),
{
    let none = Seq::<char>::empty();
    match *error {
        CaptureError::DisplayNotFound(id) => {
            crate::text::parts_are_said(
                "không tìm thấy màn hình có id "@,
                crate::text::decimal(id as nat),
                none,
                none,
                none,
            );
        },
        CaptureError::Platform(reason) => {
            crate::text::parts_are_said("lỗi từ hệ thống: "@, reason@, none, none, none);
        },
        _ => {},
    }
}

} // verus!
