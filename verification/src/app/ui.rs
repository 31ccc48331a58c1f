//! Pieces of the screen that more than one page uses.

use vstd::arithmetic::div_mod::lemma_div_denominator;
use vstd::prelude::*;
use vstd::string::StringExecFns;

use crate::binary32::{nearest, nearest_bounds, nearest_of};
use crate::net::PipelineInfo;
use crate::text::push_decimal;

verus! {

/// How a text is meant.
#[derive(Debug, Clone, Copy, PartialEq, Eq, Structural)]
pub enum Tone {
    Plain,
    Strong,
    Small,
    Good,
    Warn,
    Bad,
    Gray,
}

/// A piece of a page.
#[derive(Debug)]
pub enum Item {
    Text { text: String, tone: Tone },
    Separator,
}

/// A piece by its content.
pub ghost enum Shown {
    Text(Seq<char>, Tone),
    Separator,
}

impl Item {
    pub open spec fn shown(self) -> Shown {
        match self {
            Item::Text { text, tone } => Shown::Text(text@, tone),
            Item::Separator => Shown::Separator,
        }
    }
}

pub open spec fn shown(items: Seq<Item>) -> Seq<Shown> {
    Seq::new(items.len(), |i: int| items[i].shown())
}

pub fn put(items: &mut Vec<Item>, text: String, tone: Tone)
    ensures
        shown(final(items)@) == shown(old(items)@).push(Shown::Text(text@, tone)),
{
    items.push(Item::Text { text, tone });
    assert(shown(items@) =~= shown(old(items)@).push(Shown::Text(text@, tone)));
}

pub fn put_line(items: &mut Vec<Item>)
    ensures
        shown(final(items)@) == shown(old(items)@).push(Shown::Separator),
{
    items.push(Item::Separator);
    assert(shown(items@) =~= shown(old(items)@).push(Shown::Separator));
}

/// Numbers from 2^53 on have more bits than a binary64 number keeps.
pub const DOUBLE_LIMIT: u128 = 0x20_0000_0000_0000;

/// What the last kept bit of a number stands for in binary64.
pub open spec fn double_place(n: nat) -> nat
    decreases n,
{
    if n < DOUBLE_LIMIT {
        1
    } else {
        2 * double_place(n / 2)
    }
}

/// The binary64 number nearest to `n`.
pub open spec fn double(n: nat) -> nat {
    nearest(n, double_place(n))
}

fn double_of(n: u64) -> (r: u128)
    ensures
        r == double(n as nat),
        r <= 0x2_0000_0000_0000_0000,
{
    let whole: u128 = n as u128;
    let mut m: u128 = whole;
    let mut step: u128 = 1;
    assert(n as nat / 1 == n);
    while m >= DOUBLE_LIMIT
        invariant
            1 <= step,
            whole == n,
            m == n as nat / step as nat,
            m * step <= n,
            double_place(n as nat) == step * double_place(m as nat),
        decreases m,
    {
        proof {
            lemma_div_denominator(n as int, step as int, 2);
            let half = m / 2;
            assert(half * (2 * step) <= m * step) by (nonlinear_arith)
                requires
                    2 * half <= m,
            ;
            assert(step * (2 * double_place(half as nat)) == (2 * step) * double_place(
                half as nat,
            )) by (nonlinear_arith);
            assert(step <= n) by (nonlinear_arith)
                requires
                    m * step <= n,
                    m >= 1,
                    step >= 1,
            ;
        }
        m = m / 2;
        step = step * 2;
    }
    proof {
        assert(step * 1 == step);
        small_step(n as nat);
        nearest_bounds(n as nat, step as nat);
    }
    nearest_of(whole, step)
}

proof fn small_step(n: nat)
    ensures
        1 <= double_place(n),
        n > 0 ==> double_place(n) <= n,
    decreases n,
{
    if n >= DOUBLE_LIMIT {
        small_step(n / 2);
    }
}

/// The unit that a size is shown in: how many bytes it has.
pub open spec fn unit_of(size: nat) -> nat {
    if size < 1024 {
        1
    } else if size < 1_048_576 {
        1024
    } else if size < 1_073_741_824 {
        1_048_576
    } else {
        1_073_741_824
    }
}

pub open spec fn unit_name(unit: nat) -> Seq<char> {
    if unit == 1 {
        "B"@
    } else if unit == 1024 {
        "KB"@
    } else if unit == 1_048_576 {
        "MB"@
    } else {
        "GB"@
    }
}

/// Tenths of a unit, rounded to the nearest one, to the even one of two.
pub open spec fn tenths(size: nat, unit: nat) -> nat {
    nearest(size * 10, unit) / unit
}

/// A number of bytes as a person reads it: whole bytes, else one decimal place.
pub open spec fn size_text(value: nat) -> Seq<char> {
    let size = double(value);
    let unit = unit_of(size);
    if unit == 1 {
        crate::text::decimal(size) + " "@ + unit_name(unit)
    } else {
        crate::text::decimal(tenths(size, unit) / 10) + "."@ + crate::text::decimal(
            tenths(size, unit) % 10,
        ) + " "@ + unit_name(unit)
    }
}

pub fn bytes(value: u64) -> (s: String)
    ensures
        s@ == size_text(value as nat),
{
    let size: u128 = double_of(value);
    let mut s: String = String::new();
    if size < 1024 {
        push_decimal(&mut s, size as u64);
        s.append(" ");
        s.append("B");
        return s;
    }
    let unit: u128 = if size < 1_048_576 {
        1024
    } else if size < 1_073_741_824 {
        1_048_576
    } else {
        1_073_741_824
    };
    let near: u128 = nearest_of(size * 10, unit);
    proof {
        nearest_bounds((size * 10) as nat, unit as nat);
    }
    let parts: u128 = near / unit;
    proof {
        assert(parts <= near / 1024) by {
            vstd::arithmetic::div_mod::lemma_div_is_ordered_by_denominator(
                near as int,
                1024,
                unit as int,
            );
        }
    }
    push_decimal(&mut s, (parts / 10) as u64);
    s.append(".");
    push_decimal(&mut s, (parts % 10) as u64);
    s.append(" ");
    if unit == 1024 {
        s.append("KB");
    } else if unit == 1_048_576 {
        s.append("MB");
    } else {
        s.append("GB");
    }
    assert(s@ =~= size_text(value as nat));
    s
}

/// Figures for the overlay, with one decimal place, as they are shown.
#[derive(Debug)]
pub struct HudNumbers {
    pub fps: String,
    pub mbps: String,
    pub keyframes: u64,
    pub p50_ms: String,
    pub p99_ms: String,
    /// How the middle latency looks.
    pub pace: Tone,
    /// Unknown at the end that receives: it does not travel.
    pub encode_ms: Option<String>,
    pub decode_ms: String,
    /// One way, once measured.
    pub network_ms: Option<String>,
}

/// Size and format of the video.
pub open spec fn format_text(info: PipelineInfo) -> Seq<char> {
    crate::text::decimal(info.width as nat) + "x"@ + crate::text::decimal(info.height as nat)
        + "  "@ + info.codec.label() + " "@ + info.chroma.label()
}

fn format_of(info: &PipelineInfo) -> (s: String)
    ensures
        s@ == format_text(*info),
{
    let mut s: String = String::new();
    push_decimal(&mut s, info.width as u64);
    s.append("x");
    push_decimal(&mut s, info.height as u64);
    s.append("  ");
    s.append(info.codec.name());
    s.append(" ");
    s.append(info.chroma.name());
    assert(s@ =~= format_text(*info));
    s
}

/// The lines on the video itself.
pub open spec fn video_lines(info: Option<PipelineInfo>, n: HudNumbers) -> Seq<Shown> {
    match info {
        Some(i) => seq![
            Shown::Text(format_text(i), Tone::Strong),
            Shown::Text("nguồn: "@ + i.source@, Tone::Small),
            Shown::Separator,
            Shown::Text(
                n.fps@ + "/"@ + crate::text::decimal(i.target_fps as nat) + " fps   "@ + n.mbps@
                    + " Mbps   "@ + crate::text::decimal(n.keyframes as nat) + " kf"@,
                Tone::Plain,
            ),
        ],
        None => seq![Shown::Text("chưa có video"@, Tone::Plain)],
    }
}

/// The lines on time.
pub open spec fn time_lines(n: HudNumbers) -> Seq<Shown> {
    let encode = match n.encode_ms {
        Some(ms) => ms@ + " ms"@,
        None => "   —   "@,
    };
    seq![
        Shown::Text("trễ  p50 "@ + n.p50_ms@ + " ms   p99 "@ + n.p99_ms@ + " ms"@, n.pace),
        Shown::Text(
            "  mã hoá "@ + encode + "   giải mã "@ + n.decode_ms@ + " ms"@,
            Tone::Small,
        ),
    ] + (match n.network_ms {
        Some(ms) => seq![Shown::Text("  mạng một chiều "@ + ms@ + " ms"@, Tone::Small)],
        None => seq![],
    })
}

/// The overlay: the video, the times, and the page's own lines behind a rule.
pub open spec fn hud(info: Option<PipelineInfo>, n: HudNumbers, lines: Seq<Item>) -> Seq<Shown> {
    video_lines(info, n) + time_lines(n) + (if lines.len() > 0 {
        seq![Shown::Separator] + shown(lines)
    } else {
        seq![]
    })
}

pub open spec fn info_of(info: Option<&PipelineInfo>) -> Option<PipelineInfo> {
    match info {
        Some(i) => Some(*i),
        None => None,
    }
}

pub fn draw_hud(info: Option<&PipelineInfo>, n: &HudNumbers, lines: Vec<Item>) -> (r: Vec<Item>)
    ensures
        shown(r@) == hud(info_of(info), *n, lines@),
{
    let mut r: Vec<Item> = Vec::new();
    assert(shown(r@) =~= Seq::<Shown>::empty());
    match info {
        Some(i) => {
            put(&mut r, format_of(i), Tone::Strong);
            let mut source: String = "nguồn: ".to_owned();
            source.append(i.source.as_str());
            put(&mut r, source, Tone::Small);
            put_line(&mut r);
            let mut rate: String = n.fps.as_str().to_owned();
            rate.append("/");
            push_decimal(&mut rate, i.target_fps as u64);
            rate.append(" fps   ");
            rate.append(n.mbps.as_str());
            rate.append(" Mbps   ");
            push_decimal(&mut rate, n.keyframes);
            rate.append(" kf");
            put(&mut r, rate, Tone::Plain);
        },
        None => {
            put(&mut r, "chưa có video".to_owned(), Tone::Plain);
        },
    }
    assert(shown(r@) =~= video_lines(info_of(info), *n));
    let ghost first = shown(r@);
    let mut late: String = "trễ  p50 ".to_owned();
    late.append(n.p50_ms.as_str());
    late.append(" ms   p99 ");
    late.append(n.p99_ms.as_str());
    late.append(" ms");
    put(&mut r, late, n.pace);
    let mut codec: String = "  mã hoá ".to_owned();
    match &n.encode_ms {
        Some(ms) => {
            let mut text: String = ms.as_str().to_owned();
            text.append(" ms");
            codec.append(text.as_str());
        },
        None => {
            codec.append("   —   ");
        },
    }
    codec.append("   giải mã ");
    codec.append(n.decode_ms.as_str());
    codec.append(" ms");
    put(&mut r, codec, Tone::Small);
    match &n.network_ms {
        Some(ms) => {
            let mut text: String = "  mạng một chiều ".to_owned();
            text.append(ms.as_str());
            text.append(" ms");
            put(&mut r, text, Tone::Small);
        },
        None => {},
    }
    assert(shown(r@) =~= first + time_lines(*n));
    let ghost second = shown(r@);
    if lines.len() > 0 {
        put_line(&mut r);
        let ghost head = r@;
        let mut own: Vec<Item> = lines;
        let ghost tail = own@;
        r.append(&mut own);
        assert(r@ =~= head + tail);
        assert(shown(r@) =~= shown(head) + shown(tail));
        assert(shown(r@) =~= second + (seq![Shown::Separator] + shown(tail)));
    } else {
        assert(shown(r@) =~= second + Seq::<Shown>::empty());
    }
    r
}

/// How often the figures go to the log.
pub const REPORT_EVERY_MS: u64 = 2000;

/// When the figures last went to the log.
#[derive(Debug, Clone, Copy, PartialEq, Eq, Structural)]
pub struct Report {
    pub last_ms: u64,
}

impl Report {
    /// Whether they are due again; if so, that is now.
    pub fn due(&mut self, now_ms: u64) -> (r: bool)
        ensures
            r == (now_ms - old(self).last_ms >= REPORT_EVERY_MS),
            final(self).last_ms == (if r {
                now_ms
            } else {
                old(self).last_ms
            }),
    {
        if now_ms < self.last_ms || now_ms - self.last_ms < REPORT_EVERY_MS {
            return false;
        }
        self.last_ms = now_ms;
        true
    }
}

/// Numbers below 2^53 are shown as they are.
proof fn small_numbers_are_exact(n: nat)
    requires
        n < 0x20_0000_0000_0000,
    ensures
        double(n) == n,
{
    assert(double_place(n) == 1);
    crate::binary32::nearest_bounds(n, 1);
}

/// The tenths that are shown are the nearest ones: at most half a tenth off.
proof fn tenths_are_nearest(size: nat, unit: nat)
    requires
        unit > 0,
    ensures
        2 * (tenths(size, unit) * unit) <= 2 * (10 * size) + unit,
        2 * (10 * size) <= 2 * (tenths(size, unit) * unit) + unit,
{
    let n = size * 10;
    let near = crate::binary32::nearest(n, unit);
    crate::binary32::nearest_is_within_half(n, unit);
    let q = n / unit;
    if near == q * unit {
        vstd::arithmetic::div_mod::lemma_div_by_multiple(q as int, unit as int);
    } else {
        vstd::arithmetic::div_mod::lemma_div_by_multiple((q + 1) as int, unit as int);
    }
}

/// A size is shown in the largest unit that it fills, each 1024 times the one before. Bytes are
/// whole, all else has one decimal place, the nearest one.
pub proof fn sizes_are_shown_in_their_unit(value: nat)
    requires
        value < 0x20_0000_0000_0000,
    ensures
        value < 1024 ==> size_text(value) == crate::text::decimal(value) + " "@ + "B"@,
        value >= 1024 ==> ({
            let unit = if value < 1024 * 1024 {
                1024nat
            } else if value < 1024 * 1024 * 1024 {
                (1024 * 1024) as nat
            } else {
                (1024 * 1024 * 1024) as nat
            };
            let name = if value < 1024 * 1024 {
                "KB"@
            } else if value < 1024 * 1024 * 1024 {
                "MB"@
            } else {
                "GB"@
            };
            exists|whole: nat, part: nat|
                #![trigger crate::text::decimal(whole), crate::text::decimal(part)]
                part < 10 && size_text(value) == crate::text::decimal(whole) + "."@
                    + crate::text::decimal(part) + " "@ + name && 2 * ((10 * whole + part) * unit)
                    <= 2 * (10 * value) + unit && 2 * (10 * value) <= 2 * ((10 * whole + part)
                    * unit) + unit
        }),
{
    small_numbers_are_exact(value);
    if value >= 1024 {
        let unit = unit_of(value);
        tenths_are_nearest(value, unit);
        let t = tenths(value, unit);
        let whole = t / 10;
        let part = t % 10;
        assert(10 * whole + part == t);
        assert(size_text(value) == crate::text::decimal(whole) + "."@ + crate::text::decimal(part)
            + " "@ + unit_name(unit));
    }
}

/// The overlay shows the video first, then the times, and last the page's own lines, behind a rule
/// where there are any.
pub proof fn the_overlay_has_three_parts(info: Option<PipelineInfo>, n: HudNumbers, lines: Seq<Item>)
    ensures
        ({
            let all = hud(info, n, lines);
            let head = video_lines(info, n).len() + time_lines(n).len();
            &&& all.take(video_lines(info, n).len() as int) == video_lines(info, n)
            &&& lines.len() == 0 ==> all.len() == head
            &&& lines.len() > 0 ==> all.len() == head + 1 + lines.len() && all[head as int]
                == Shown::Separator
            &&& forall|i: int|
                0 <= i < lines.len() ==> all[head + 1 + i] == (#[trigger] lines[i]).shown()
            &&& info is None ==> video_lines(info, n).len() == 1
            &&& info is Some ==> video_lines(info, n).len() == 4
            &&& n.network_ms is None ==> time_lines(n).len() == 2
            &&& n.network_ms is Some ==> time_lines(n).len() == 3
        }),
{
    let all = hud(info, n, lines);
    assert(all.take(video_lines(info, n).len() as int) =~= video_lines(info, n));
}

/// Numbers are written at most every two seconds, and the time begins anew with the writing.
pub proof fn reports_come_every_two_seconds(report: &mut Report, now_ms: u64, r: bool)
    requires
        call_ensures(Report::due, (report, now_ms), r),
    ensures
        r <==> now_ms >= old(report).last_ms + 2_000,
        r ==> final(report).last_ms == now_ms,
        !r ==> final(report).last_ms == old(report).last_ms,
{
}

/// What is put on the overlay comes behind what is there.
pub proof fn lines_come_last(
    items: &mut Vec<Item>,
    ruled: &mut Vec<Item>,
    text: String,
    tone: Tone,
)
    requires
        call_ensures(put, (items, text, tone), ()),
        call_ensures(put_line, (ruled,), ()),
    ensures
        shown(final(items)@).len() == shown(old(items)@).len() + 1,
        shown(final(items)@).drop_last() == shown(old(items)@),
        shown(final(items)@).last() == Shown::Text(text@, tone),
        shown(final(ruled)@).drop_last() == shown(old(ruled)@),
        shown(final(ruled)@).last() == Shown::Separator,
{
}

} // verus!
