//! A source of frames in place of a screen.
//!
//! Everything behind the capture can run on it while the permission to record is missing, and its
//! content is always the same, so that two measurements can be compared.

use vstd::prelude::*;

use crate::capture::{CaptureConfig, CaptureError, CaptureStats, CapturedFrame, DisplayInfo};
use crate::protocol::control::{Real32, ONE_BITS};

verus! {

/// How many buffers take turns: two keep the one that the encoder reads from being overwritten,
/// three give it a breath more.
pub const RING: usize = 3;

/// The one display there is.
pub fn list_displays() -> (r: Vec<DisplayInfo>)
    ensures
        r@.len() == 1,
        r@[0].name@ == "Màn hình tổng hợp"@,
        r@[0] == (DisplayInfo {
            id: 0,
            name: r@[0].name,
            width: 1920,
            height: 1080,
            scale: Real32 { bits: ONE_BITS },
            refresh_hz: 60,
            is_primary: true,
        }),
{
    let mut r: Vec<DisplayInfo> = Vec::new();
    r.push(
        DisplayInfo {
            id: 0,
            name: "Màn hình tổng hợp".to_owned(),
            width: 1920,
            height: 1080,
            scale: Real32 { bits: ONE_BITS },
            refresh_hz: 60,
            is_primary: true,
        },
    );
    r
}

/// When the next frame comes.
#[derive(Debug, Clone, PartialEq, Eq)]
pub enum Pace {
    /// In so many nanoseconds.
    Wait(u64),
    Fail(CaptureError),
}

/// The next multiple of two below.
pub open spec fn even(n: int) -> u32 {
    (n - n % 2) as u32
}

pub struct SyntheticCapturer {
    config: CaptureConfig,
    width: u32,
    height: u32,
    index: u64,
    stats: CaptureStats,
    stopped: bool,
}

impl SyntheticCapturer {
    pub closed spec fn settings(&self) -> CaptureConfig {
        self.config
    }

    pub closed spec fn size(&self) -> (u32, u32) {
        (self.width, self.height)
    }

    pub closed spec fn made(&self) -> u64 {
        self.index
    }

    pub closed spec fn counts(&self) -> CaptureStats {
        self.stats
    }

    pub closed spec fn closed_down(&self) -> bool {
        self.stopped
    }

    /// Nanoseconds between two frames.
    pub open spec fn gap(&self) -> nat {
        ((1_000_000u64 / (if self.settings().target_fps < 1 {
            1u64
        } else {
            self.settings().target_fps as u64
        })) * 1000) as nat
    }

    /// There is no screen to ask, so `max_dimension` is the width itself. Both edges are even: an
    /// encoder halves the colour.
    pub fn start(config: CaptureConfig) -> (r: Self)
        requires
            config.max_dimension matches Some(edge) ==> edge * 9 <= u32::MAX,
        ensures
            r.settings() == config,
            r.size() == (match config.max_dimension {
                Some(edge) => (even(edge as int), even(edge as int * 9 / 16)),
                None => (1920, 1080),
            }),
            r.made() == 0,
            r.counts() == (CaptureStats {
                frames_delivered: 0,
                frames_dropped: 0,
                frames_idle: 0,
            }),
            !r.closed_down(),
    {
        let width: u32 = match config.max_dimension {
            Some(edge) => edge,
            None => 1920,
        };
        let height: u32 = match config.max_dimension {
            Some(edge) => edge * 9 / 16,
            None => 1080,
        };
        SyntheticCapturer {
            config,
            width: width - width % 2,
            height: height - height % 2,
            index: 0,
            stats: CaptureStats::default(),
            stopped: false,
        }
    }

    fn frame_gap(&self) -> (r: u64)
        ensures
            r == self.gap(),
            r <= 1_000_000_000,
    {
        let fps: u64 = if self.config.target_fps < 1 { 1 } else { self.config.target_fps as u64 };
        proof {
            assert(1_000_000u64 / fps <= 1_000_000) by (nonlinear_arith)
                requires
                    fps >= 1,
            ;
        }
        (1_000_000u64 / fps) * 1000
    }

    /// When the next frame comes, `elapsed_ns` after the start, for a caller that waits at most
    /// `timeout_ns`. The frames keep their rhythm, so that the load is that of a real screen. The
    /// number of the frame counts modulo 2^32.
    pub fn pace(&self, elapsed_ns: u64, timeout_ns: u64) -> (r: Pace)
        ensures
            ({
                let due = self.gap() * (self.made() as nat % 0x1_0000_0000);
                r == (if self.closed_down() {
                    Pace::Fail(CaptureError::Stopped)
                } else if due <= elapsed_ns {
                    Pace::Wait(0)
                } else if due - elapsed_ns > timeout_ns {
                    Pace::Fail(CaptureError::Timeout)
                } else {
                    Pace::Wait((due - elapsed_ns) as u64)
                })
            }),
    {
        if self.stopped {
            return Pace::Fail(CaptureError::Stopped);
        }
        let gap: u64 = self.frame_gap();
        let turn: u64 = self.index % 0x1_0000_0000;
        proof {
            assert(0 <= gap * turn <= 1_000_000_000 * 0xffff_ffff) by (nonlinear_arith)
                requires
                    0 <= gap <= 1_000_000_000,
                    0 <= turn <= 0xffff_ffff,
            ;
        }
        let due: u64 = gap * turn;
        if due <= elapsed_ns {
            return Pace::Wait(0);
        }
        if due - elapsed_ns > timeout_ns {
            return Pace::Fail(CaptureError::Timeout);
        }
        Pace::Wait(due - elapsed_ns)
    }

    /// The buffer whose turn it is.
    pub fn slot(&self) -> (r: usize)
        ensures
            r == self.made() % 3,
            r < RING,
    {
        (self.index % 3) as usize
    }

    /// Hands out the frame that was painted into `surface`.
    pub fn next_frame<S>(&mut self, surface: S, capture_us: u64) -> (r: CapturedFrame<S>)
        requires
            old(self).made() < u64::MAX,
            old(self).counts().frames_delivered < u64::MAX,
        ensures
            r == (CapturedFrame {
                width: old(self).size().0,
                height: old(self).size().1,
                capture_us,
                frame_index: old(self).made(),
                surface,
            }),
            final(self).made() == old(self).made() + 1,
            final(self).counts() == (CaptureStats {
                frames_delivered: (old(self).counts().frames_delivered + 1) as u64,
                ..old(self).counts()
            }),
            final(self).settings() == old(self).settings(),
            final(self).size() == old(self).size(),
            final(self).closed_down() == old(self).closed_down(),
    {
        let frame = CapturedFrame {
            width: self.width,
            height: self.height,
            capture_us,
            frame_index: self.index,
            surface,
        };
        self.index = self.index + 1;
        self.stats.frames_delivered = self.stats.frames_delivered + 1;
        frame
    }

    pub fn stats(&self) -> (r: CaptureStats)
        ensures
            r == self.counts(),
    {
        self.stats
    }

    pub fn stop(&mut self)
        ensures
            final(self).closed_down(),
            final(self).settings() == old(self).settings(),
            final(self).size() == old(self).size(),
            final(self).made() == old(self).made(),
            final(self).counts() == old(self).counts(),
    {
        self.stopped = true;
    }
}

pub open spec fn quarter(n: nat) -> nat {
    if n / 4 < 1 {
        1
    } else {
        n / 4
    }
}

/// Where the moving window begins on an axis.
pub open spec fn window_at(edge: nat, index: nat, step: nat) -> nat {
    (index * step) % (if edge - quarter(edge) < 1 {
        1
    } else {
        (edge - quarter(edge)) as nat
    })
}

/// Whether the moving window covers a pixel.
pub open spec fn in_window(width: nat, height: nat, index: nat, x: nat, y: nat) -> bool {
    window_at(width, index, 7) <= x < window_at(width, index, 7) + quarter(width) && window_at(
        height,
        index,
        3,
    ) <= y < window_at(height, index, 3) + quarter(height)
}

/// One byte of a pixel, in the order blue, green, red, alpha: a window that moves, thin stripes
/// like letters in the lower half, and a gradient behind.
pub open spec fn shown(width: nat, height: nat, index: nat, x: nat, y: nat, channel: int) -> u8 {
    let shade = (y * 255 / height) as u8;
    if channel == 3 {
        255
    } else if in_window(width, height, index, x, y) {
        if channel == 0 {
            40
        } else if channel == 1 {
            200
        } else {
            90
        }
    } else if y > height / 2 && (x + index) % 3 == 0 {
        250
    } else if channel == 0 {
        shade / 3
    } else if channel == 1 {
        shade / 2
    } else {
        shade
    }
}

/// Whether row `y` of the picture covers a byte of the buffer.
pub open spec fn in_row(stride: nat, width: nat, y: nat, i: nat) -> bool {
    y * stride <= i < y * stride + width * 4
}

/// A byte of the buffer after the first `rows` rows: the last row that covers it shows there, and
/// one outside the picture stays.
pub open spec fn painted(
    stride: nat,
    width: nat,
    height: nat,
    index: nat,
    rows: nat,
    i: nat,
    before: u8,
) -> u8
    decreases rows,
{
    if rows == 0 {
        before
    } else {
        let y = (rows - 1) as nat;
        let at = i - y * stride;
        if in_row(stride, width, y, i) {
            shown(width, height, index, (at / 4) as nat, y, at % 4)
        } else {
            painted(stride, width, height, index, y, i, before)
        }
    }
}

/// Paints a desktop in use into a BGRA buffer whose rows begin `stride` bytes apart. Systems align
/// rows, so there may be padding behind a row, which stays as it is.
pub fn paint(pixels: &mut [u8], stride: usize, width: u32, height: u32, index: u32)
    requires
        width >= 1,
        height >= 1,
        (height - 1) * stride + width * 4 <= old(pixels)@.len(),
        height * 255 <= usize::MAX,
        index * 7 <= u32::MAX,
    ensures
        final(pixels)@.len() == old(pixels)@.len(),
        forall|i: int|
            0 <= i < old(pixels)@.len() ==> #[trigger] final(pixels)@[i] == painted(
                stride as nat,
                width as nat,
                height as nat,
                index as nat,
                height as nat,
                i as nat,
                old(pixels)@[i],
            ),
{
    let ghost before = pixels@;
    let quarter_w: u32 = width / 4;
    let block_w: u32 = if quarter_w < 1 { 1 } else { quarter_w };
    let quarter_h: u32 = height / 4;
    let block_h: u32 = if quarter_h < 1 { 1 } else { quarter_h };
    let span_w: u32 = if width - block_w < 1 { 1 } else { width - block_w };
    let span_h: u32 = if height - block_h < 1 { 1 } else { height - block_h };
    let block_x: u32 = (index * 7) % span_w;
    let block_y: u32 = (index * 3) % span_h;
    let text_top: u32 = height / 2;
    let mut y: u32 = 0;
    let mut start: usize = 0;
    assert(0 * stride == 0);
    while y < height
        invariant
            y <= height,
            y < height ==> start == y * stride,
            pixels@.len() == before.len(),
            width >= 1,
            height >= 1,
            (height - 1) * stride + width * 4 <= before.len(),
            before.len() == pixels.len(),
            height * 255 <= usize::MAX,
            index * 7 <= u32::MAX,
            text_top == height / 2,
            block_w == quarter(width as nat),
            block_h == quarter(height as nat),
            block_x == window_at(width as nat, index as nat, 7),
            block_y == window_at(height as nat, index as nat, 3),
            forall|i: int|
                0 <= i < before.len() ==> #[trigger] pixels@[i] == painted(
                    stride as nat,
                    width as nat,
                    height as nat,
                    index as nat,
                    y as nat,
                    i as nat,
                    before[i],
                ),
        decreases height - y,
    {
        proof {
            assert(y * stride <= (height - 1) * stride) by (nonlinear_arith)
                requires
                    y <= height - 1,
                    0 <= stride,
            ;
            assert((y * 255) / (height as int) <= 255) by (nonlinear_arith)
                requires
                    0 <= y < height,
            ;
            assert((y * 255) / (height as int) >= 0) by (nonlinear_arith)
                requires
                    0 <= y < height,
            ;
        }
        let shade: u8 = (y as usize * 255 / height as usize) as u8;
        let in_rows: bool = y >= block_y && y - block_y < block_h;
        let mut x: u32 = 0;
        let mut at: usize = start;
        let ghost had = pixels@;
        while x < width
            invariant
                x <= width,
                y < height,
                at == start + x * 4,
                start == y * stride,
                start + width * 4 <= before.len(),
                before.len() == pixels.len(),
                pixels@.len() == before.len(),
                had.len() == before.len(),
                height >= 1,
                text_top == height / 2,
                shade == ((y as nat * 255) / (height as nat)) as u8,
                block_w == quarter(width as nat),
                block_h == quarter(height as nat),
                block_x == window_at(width as nat, index as nat, 7),
                block_y == window_at(height as nat, index as nat, 3),
                in_rows == (block_y <= y < block_y + block_h),
                forall|i: int|
                    start <= i < at ==> #[trigger] pixels@[i] == shown(
                        width as nat,
                        height as nat,
                        index as nat,
                        ((i - start) / 4) as nat,
                        y as nat,
                        (i - start) % 4,
                    ),
                forall|i: int|
                    0 <= i < start || at <= i < before.len() ==> #[trigger] pixels@[i] == had[i],
            decreases width - x,
        {
            let (b, g, r): (u8, u8, u8) = if in_rows && x >= block_x && x - block_x < block_w {
                (40, 200, 90)
            } else if y > text_top && (x as u64 + index as u64) % 3 == 0 {
                (250, 250, 250)
            } else {
                (shade / 3, shade / 2, shade)
            };
            pixels[at] = b;
            pixels[at + 1] = g;
            pixels[at + 2] = r;
            pixels[at + 3] = 255;
            proof {
                assert forall|i: int| at <= i < at + 4 implies #[trigger] pixels@[i] == shown(
                    width as nat,
                    height as nat,
                    index as nat,
                    ((i - start) / 4) as nat,
                    y as nat,
                    (i - start) % 4,
                ) by {
                    assert((i - start) / 4 == x && (i - start) % 4 == i - at);
                }
            }
            x += 1;
            at += 4;
        }
        assert forall|i: int| 0 <= i < before.len() implies #[trigger] pixels@[i] == painted(
            stride as nat,
            width as nat,
            height as nat,
            index as nat,
            (y + 1) as nat,
            i as nat,
            before[i],
        ) by {
            assert(in_row(stride as nat, width as nat, y as nat, i as nat) == (start <= i < at));
            assert(0 <= i < start || at <= i < before.len() ==> pixels@[i] == had[i]);
        }
        y += 1;
        if y < height {
            proof {
                assert(y * stride <= (height - 1) * stride) by (nonlinear_arith)
                    requires
                        y <= height - 1,
                        0 <= stride,
                ;
                assert(y * stride == (y - 1) * stride + stride) by (nonlinear_arith);
            }
            start = start + stride;
        }
    }
}

/// Every pixel is opaque: one that shines through would come out black. Rows must not overlap, or
/// do so by whole pixels.
pub proof fn pixels_are_opaque(
    stride: nat,
    width: nat,
    height: nat,
    index: nat,
    x: nat,
    y: nat,
    before: u8,
)
    requires
        x < width,
        y < height,
        width * 4 <= stride || stride % 4 == 0,
    ensures
        painted(stride, width, height, index, height, y * stride + x * 4 + 3, before) == 255,
{
    opaque_after(stride, width, height, index, height, x, y, before);
}

proof fn opaque_after(
    stride: nat,
    width: nat,
    height: nat,
    index: nat,
    rows: nat,
    x: nat,
    y: nat,
    before: u8,
)
    requires
        x < width,
        y < rows,
        width * 4 <= stride || stride % 4 == 0,
    ensures
        painted(stride, width, height, index, rows, y * stride + x * 4 + 3, before) == 255,
    decreases rows,
{
    let last = (rows - 1) as nat;
    let i = y * stride + x * 4 + 3;
    if last == y {
        assert(in_row(stride, width, last, i));
    } else {
        opaque_after(stride, width, height, index, last, x, y, before);
        if in_row(stride, width, last, i) {
            assert((last - y) * stride == last * stride - y * stride) by (nonlinear_arith);
            assert((last - y) * stride >= stride) by (nonlinear_arith)
                requires
                    last - y >= 1,
                    stride >= 0,
            ;
            assert(((last - y) * stride) % 4 == 0) by {
                let quarter = stride as int / 4;
                assert(stride == 4 * quarter);
                assert((last - y) * stride == 4 * ((last - y) * quarter)) by (nonlinear_arith)
                    requires
                        stride == 4 * quarter,
                ;
            }
            assert((i - last * stride) % 4 == 3);
        }
    }
}

/// Nothing is written behind the end of a row.
pub proof fn padding_is_kept(
    stride: nat,
    width: nat,
    height: nat,
    index: nat,
    y: nat,
    column: nat,
    before: u8,
)
    requires
        width * 4 <= column < stride,
    ensures
        painted(stride, width, height, index, height, y * stride + column, before) == before,
{
    kept_after(stride, width, height, index, height, y, column, before);
}

proof fn kept_after(
    stride: nat,
    width: nat,
    height: nat,
    index: nat,
    rows: nat,
    y: nat,
    column: nat,
    before: u8,
)
    requires
        width * 4 <= column < stride,
    ensures
        painted(stride, width, height, index, rows, y * stride + column, before) == before,
    decreases rows,
{
    if rows > 0 {
        let last = (rows - 1) as nat;
        kept_after(stride, width, height, index, last, y, column, before);
        assert(!in_row(stride, width, last, y * stride + column)) by (nonlinear_arith)
            requires
                width * 4 <= column < stride,
                in_row(stride, width, last, y * stride + column) == (last * stride <= y * stride
                    + column < last * stride + width * 4),
        ;
    }
}

/// A picture so small that a frame may repeat the one before: the window has nowhere to go, and no
/// stripe comes or goes.
pub open spec fn may_repeat(width: nat, height: nat, index: nat) -> bool {
    ||| (width == 1 || width == 2 || width == 9) && (height == 1 || height == 2)
    ||| width == 1 && height == 4 && index % 3 == 1
}

/// Each frame differs from the one before in some pixel: an encoder that has nothing to do would
/// spoil the measurement.
pub proof fn frames_differ(width: nat, height: nat, index: nat)
    requires
        width >= 1,
        height >= 1,
        !may_repeat(width, height, index),
    ensures
        exists|x: nat, y: nat, channel: int|
            x < width && y < height && 0 <= channel < 3 && #[trigger] shown(
                width,
                height,
                index,
                x,
                y,
                channel,
            ) != shown(width, height, index + 1, x, y, channel),
{
    let (x0, x1) = (window_at(width, index, 7), window_at(width, index + 1, 7));
    let (y0, y1) = (window_at(height, index, 3), window_at(height, index + 1, 3));
    window_is_inside(width, index, 7);
    window_is_inside(width, index + 1, 7);
    window_is_inside(height, index, 3);
    window_is_inside(height, index + 1, 3);
    if x0 != x1 || y0 != y1 {
        // A pixel that only the later window covers: nothing else is so green.
        let x = if x1 > x0 {
            (x1 + quarter(width) - 1) as nat
        } else {
            x1
        };
        let y = if x0 == x1 && y1 > y0 {
            (y1 + quarter(height) - 1) as nat
        } else {
            y1
        };
        assert(in_window(width, height, index + 1, x, y));
        assert(!in_window(width, height, index, x, y));
        assert(shown(width, height, index, x, y, 1) != 200);
        assert(shown(width, height, index, x, y, 1) != shown(width, height, index + 1, x, y, 1));
    } else {
        window_rests(width, index, 7);
        window_rests(height, index, 3);
        assert(height == 4);
        let x: nat = if index % 3 == 0 {
            0
        } else if index % 3 == 1 {
            if width == 2 {
                1
            } else {
                2
            }
        } else {
            0
        };
        assert(shown(width, height, index, x, 3, 0) != shown(width, height, index + 1, x, 3, 0));
    }
}

proof fn window_is_inside(edge: nat, index: nat, step: nat)
    requires
        edge >= 1,
    ensures
        window_at(edge, index, step) + quarter(edge) <= edge,
        quarter(edge) >= 1,
{
    let room = if edge - quarter(edge) < 1 {
        1int
    } else {
        edge - quarter(edge)
    };
    vstd::arithmetic::div_mod::lemma_mod_bound((index * step) as int, room);
}

/// A window that does not move has no room, or as much as its step.
proof fn window_rests(edge: nat, index: nat, step: nat)
    requires
        edge >= 1,
        step == 7 || step == 3,
        window_at(edge, index, step) == window_at(edge, index + 1, step),
    ensures
        edge == 1 || edge == 2 || edge - quarter(edge) == step,
{
    let room = if edge - quarter(edge) < 1 {
        1int
    } else {
        edge - quarter(edge)
    };
    let a = (index * step) as int;
    assert((index + 1) * step == a + step) by (nonlinear_arith)
        requires
            a == index * step,
    ;
    vstd::arithmetic::div_mod::lemma_fundamental_div_mod(a, room);
    vstd::arithmetic::div_mod::lemma_fundamental_div_mod(a + step, room);
    let turns = (a + step) / room - a / room;
    assert(step == room * turns) by (nonlinear_arith)
        requires
            a == room * (a / room) + a % room,
            a + step == room * ((a + step) / room) + (a + step) % room,
            a % room == (a + step) % room,
            turns == (a + step) / room - a / room,
    ;
    assert(room <= step) by (nonlinear_arith)
        requires
            step == room * turns,
            room >= 1,
            step >= 1,
    ;
    assert(room == 1 || room == step) by {
        if room == 2 {
            assert(step == 2 * turns);
        } else if room == 3 {
            assert(step == 3 * turns);
        } else if room == 4 {
            assert(step == 4 * turns);
        } else if room == 5 {
            assert(step == 5 * turns);
        } else if room == 6 {
            assert(step == 6 * turns);
        }
    }
}

/// An edge is made even by taking off one where it is odd.
pub proof fn odd_edges_lose_one(n: int)
    requires
        0 <= n < 0x1_0000_0000,
    ensures
        even(n) % 2 == 0,
        even(n) == n || even(n) == n - 1,
{
}

/// The frames of a second fit into it, to within a microsecond for each; a rate of nothing counts
/// as one.
pub proof fn frames_fill_a_second(source: SyntheticCapturer)
    ensures
        ({
            let fps = source.settings().target_fps as nat;
            &&& source.gap() % 1000 == 0
            &&& fps == 0 ==> source.gap() == 1_000_000_000
            &&& fps > 0 ==> fps * source.gap() <= 1_000_000_000 < fps * (source.gap() + 1000)
        }),
{
    let fps = source.settings().target_fps as int;
    if fps > 0 {
        let us = 1_000_000int / fps;
        vstd::arithmetic::div_mod::lemma_fundamental_div_mod(1_000_000, fps);
        vstd::arithmetic::div_mod::lemma_mod_bound(1_000_000, fps);
        assert(fps * (us * 1000) == 1000 * (fps * us)) by (nonlinear_arith);
        assert(fps * (us * 1000 + 1000) == 1000 * (fps * us) + 1000 * fps) by (nonlinear_arith);
    }
}

/// The window takes a quarter of an edge, at least one pixel, and never leaves the picture. It goes
/// on by its step with every frame, and begins anew where it would leave.
pub proof fn the_window_stays_inside(edge: nat, index: nat, step: nat)
    requires
        edge >= 4,
        step <= edge - edge / 4,
    ensures
        ({
            let room = (edge - edge / 4) as nat;
            let now = window_at(edge, index, step);
            let next = window_at(edge, index + 1, step);
            &&& quarter(edge) == edge / 4
            &&& now < room
            &&& now + edge / 4 <= edge
            &&& window_at(edge, 0, step) == 0
            &&& now + step < room ==> next == now + step
            &&& now + step >= room ==> next == now + step - room
        }),
{
    let room = (edge - edge / 4) as int;
    let now = (index * step) as int % room;
    assert((index + 1) * step == index * step + step) by (nonlinear_arith);
    assert(0 * step == 0) by (nonlinear_arith);
    vstd::arithmetic::div_mod::lemma_mod_bound((index * step) as int, room);
    vstd::arithmetic::div_mod::lemma_add_mod_noop_right(step as int, (index * step) as int, room);
    if now + step < room {
        vstd::arithmetic::div_mod::lemma_small_mod((now + step) as nat, room as nat);
    } else {
        vstd::arithmetic::div_mod::lemma_small_mod((now + step - room) as nat, room as nat);
        vstd::arithmetic::div_mod::lemma_mod_add_multiples_vanish(now + step - room, room);
    }
}

/// What a pixel looks like, as blue, green and red: the window is green, the stripes of the lower
/// half are near white, and behind them it goes from black at the top to red at the bottom.
pub proof fn pixels_have_their_colours(width: nat, height: nat, index: nat, x: nat, y: nat)
    requires
        x < width,
        y < height,
    ensures
        ({
            let b = shown(width, height, index, x, y, 0);
            let g = shown(width, height, index, x, y, 1);
            let r = shown(width, height, index, x, y, 2);
            let across = window_at(width, index, 7);
            let down = window_at(height, index, 3);
            let covered = across <= x && x < across + quarter(width) && down <= y && y < down
                + quarter(height);
            let striped = y > height / 2 && (x + index) % 3 == 0;
            &&& shown(width, height, index, x, y, 3) == 255
            &&& covered ==> b == 40 && g == 200 && r == 90
            &&& !covered && striped ==> b == 250 && g == 250 && r == 250
            &&& !covered && !striped ==> r == y * 255 / height && g == r / 2 && b == r / 3
            &&& !covered && !striped && y == 0 ==> r == 0
        }),
{
    assert(0 <= y * 255 / height < 255) by (nonlinear_arith)
        requires
            y < height,
    ;
    assert(0 * 255 / height == 0) by (nonlinear_arith)
        requires
            0 < height,
    ;
}

/// Each pixel of the picture is in its place: four bytes for each one, row by row.
pub proof fn pixels_are_in_their_places(
    stride: nat,
    width: nat,
    height: nat,
    index: nat,
    x: nat,
    y: nat,
    channel: int,
    before: u8,
)
    requires
        x < width,
        y < height,
        width * 4 <= stride,
        0 <= channel < 4,
    ensures
        painted(
            stride,
            width,
            height,
            index,
            height,
            (y * stride + x * 4 + channel) as nat,
            before,
        ) == shown(width, height, index, x, y, channel),
{
    in_place_after(stride, width, height, index, height, x, y, channel, before);
}

proof fn in_place_after(
    stride: nat,
    width: nat,
    height: nat,
    index: nat,
    rows: nat,
    x: nat,
    y: nat,
    channel: int,
    before: u8,
)
    requires
        x < width,
        y < rows,
        width * 4 <= stride,
        0 <= channel < 4,
    ensures
        painted(
            stride,
            width,
            height,
            index,
            rows,
            (y * stride + x * 4 + channel) as nat,
            before,
        ) == shown(width, height, index, x, y, channel),
    decreases rows,
{
    let last = (rows - 1) as nat;
    let i = (y * stride + x * 4 + channel) as nat;
    if last == y {
        assert(in_row(stride, width, last, i));
        assert((x * 4 + channel) / 4 == x && (x * 4 + channel) % 4 == channel);
    } else {
        in_place_after(stride, width, height, index, last, x, y, channel, before);
        assert(last * stride >= y * stride + stride) by (nonlinear_arith)
            requires
                last >= y + 1,
        ;
    }
}

/// A source without a wish is 1920 by 1080; else it is as wide as wished and nine sixteenths as
/// high, both made even. It begins at frame 0.
pub proof fn sources_have_the_wished_size(config: CaptureConfig, r: SyntheticCapturer)
    requires
        config.max_dimension matches Some(edge) ==> edge * 9 <= 0xffff_ffff,
        call_ensures(SyntheticCapturer::start, (config,), r),
    ensures
        config.max_dimension is None ==> r.size() == (1920u32, 1080u32),
        config.max_dimension matches Some(edge) ==> r.size().0 % 2 == 0 && r.size().1 % 2 == 0
            && edge - 1 <= r.size().0 <= edge && edge * 9 / 16 - 1 <= r.size().1 <= edge * 9 / 16,
        r.made() == 0,
        !r.closed_down(),
{
}

/// A frame is due at its number times the gap. Before that the caller waits as long as is left, or
/// gives up where that is longer than it may; after that there is no wait.
pub proof fn frames_keep_their_rhythm(
    source: &SyntheticCapturer,
    elapsed_ns: u64,
    timeout_ns: u64,
    r: Pace,
)
    requires
        source.made() < 0x1_0000_0000,
        call_ensures(SyntheticCapturer::pace, (source, elapsed_ns, timeout_ns), r),
    ensures
        ({
            let due = source.gap() * source.made();
            &&& source.closed_down() ==> r == Pace::Fail(CaptureError::Stopped)
            &&& !source.closed_down() && due <= elapsed_ns ==> r == Pace::Wait(0)
            &&& !source.closed_down() && elapsed_ns < due <= elapsed_ns + timeout_ns ==> (
            r matches Pace::Wait(ns) && elapsed_ns + ns == due)
            &&& !source.closed_down() && due > elapsed_ns + timeout_ns ==> r == Pace::Fail(
                CaptureError::Timeout,
            )
        }),
{
    vstd::arithmetic::div_mod::lemma_small_mod(source.made() as nat, 0x1_0000_0000);
}

/// A source hands its frames out in order and counts them, in its own size and with the given time;
/// the places take turns in threes.
pub proof fn frames_are_counted<S>(
    source: &mut SyntheticCapturer,
    surface: S,
    capture_us: u64,
    frame: CapturedFrame<S>,
    before: usize,
    after: usize,
)
    requires
        old(source).made() < u64::MAX,
        old(source).counts().frames_delivered < u64::MAX,
        call_ensures(SyntheticCapturer::slot, (old(source),), before),
        call_ensures(SyntheticCapturer::next_frame::<S>, (source, surface, capture_us), frame),
        call_ensures(SyntheticCapturer::slot, (final(source),), after),
    ensures
        frame.frame_index == old(source).made(),
        frame.width == old(source).size().0 && frame.height == old(source).size().1,
        frame.capture_us == capture_us && frame.surface == surface,
        final(source).made() == old(source).made() + 1,
        final(source).counts().frames_delivered == old(source).counts().frames_delivered + 1,
        final(source).counts().frames_dropped == old(source).counts().frames_dropped,
        after == (before + 1) % 3,
        final(source).size() == old(source).size(),
        final(source).closed_down() == old(source).closed_down(),
{
}

/// Stopping closes the source and changes nothing else.
pub proof fn stopping_closes_the_source(source: &mut SyntheticCapturer)
    requires
        call_ensures(SyntheticCapturer::stop, (source,), ()),
    ensures
        final(source).closed_down(),
        final(source).size() == old(source).size(),
        final(source).made() == old(source).made(),
        final(source).counts() == old(source).counts(),
        final(source).settings() == old(source).settings(),
{
}

/// There is one display, 1920 by 1080 at sixty pictures a second.
pub proof fn one_display_is_listed(r: Vec<DisplayInfo>)
    requires
        call_ensures(list_displays, (), r),
    ensures
        r@.len() == 1,
        r@[0].id == 0 && r@[0].width == 1920 && r@[0].height == 1080 && r@[0].refresh_hz == 60
            && r@[0].is_primary,
{
}

} // verus!
