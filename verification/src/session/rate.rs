//! Fits the video's bitrate to the link.
//!
//! The user sets a number and leaves it, while the link changes: another network, somebody else's
//! download, a relay far away. Sending 30 Mbps into a link of 5 does not make a better picture but
//! a growing queue and one that stands still. So the user's number is a **ceiling**, and the
//! controller feels its way by two signs:
//!
//! * **Loss**, which shows only after a queue has run over.
//! * **A growing round trip**, which shows before that: routers buffer a hundred milliseconds
//!   before they drop anything.
//!
//! Ratios are compared and rates are scaled in binary32 arithmetic.

use vstd::prelude::*;

use crate::binary32::{
    nearest, nearest_bounds, nearest_of, round, rounded, rounded_bounds, rounded_is_close,
    rounded_is_within_half,
};

verus! {

/// The floor. Below it letters cannot be read any more.
pub const MIN_KBPS: u32 = 600;

/// Where a session begins, if the ceiling allows it. Not the whole ceiling: nothing is known of
/// the link yet, and the first keyframe is what must come through.
pub const START_KBPS: u32 = 8_000;

/// The link at one moment. The packets are counted from the beginning of the session.
#[derive(Debug, Clone, Copy, Default, PartialEq, Eq, Structural)]
pub struct LinkSample {
    /// Round trip in nanoseconds; 0 where it is not known.
    pub rtt_ns: u64,
    pub lost_packets: u64,
    pub sent_packets: u64,
}

#[derive(Debug)]
pub struct RateController {
    ceiling: u32,
    current: u32,
    rtt_min: Option<u64>,
    last: Option<LinkSample>,
}

/// State of a controller.
#[verifier::ext_equal]
pub struct Rate {
    pub ceiling: u32,
    pub current: u32,
    /// Shortest round trip seen.
    pub rtt_min: Option<u64>,
    pub last: Option<LinkSample>,
}

/// How much the counter grew; 0 where it went back.
pub open spec fn grown(now: u64, before: u64) -> nat {
    if now >= before {
        (now - before) as nat
    } else {
        0
    }
}

/// Whether the loss, as a binary32 quotient, lies above 0.02: the exact quotient lies above the
/// middle between that number, 10737418 / 2^29, and the next one.
pub open spec fn lossy(lost: nat, sent: nat) -> bool {
    sent > 0 && rounded(lost) * 0x4000_0000 > rounded(sent) * 21_474_837
}

/// Whether the loss, as a binary32 quotient, lies below 0.005: the exact quotient lies below the
/// middle between that number, 10737418 / 2^31, and the one before it. Nothing sent counts as
/// nothing lost.
pub open spec fn lossless(lost: nat, sent: nat) -> bool {
    sent == 0 || rounded(lost) * 0x1_0000_0000 < rounded(sent) * 21_474_835
}

pub const NANOS: u128 = 1_000_000_000;

/// The fraction of a second of a span, `nanos / 10^9` as a binary32 number, counted in 2^-56. One
/// more bit that tells whether the quotient has a remainder is enough to round it right.
pub open spec fn fraction_part(nanos: nat) -> nat {
    let scaled = rounded(nanos) * 0x80_0000_0000_0000;
    rounded(
        2 * (scaled / NANOS as nat) + if scaled % NANOS as nat != 0 {
            1nat
        } else {
            0
        },
    )
}

/// A span in seconds as a binary32 number, counted in 2^-56.
pub open spec fn seconds(ns: nat) -> nat {
    rounded(rounded(ns / NANOS as nat) * 0x100_0000_0000_0000 + fraction_part(ns % NANOS as nat))
}

/// One and a half times a span, by way of binary32 seconds, in whole nanoseconds.
pub open spec fn inflated(ns: nat) -> nat {
    nearest(rounded(3 * seconds(ns)) * NANOS as nat, 0x200_0000_0000_0000) / 0x200_0000_0000_0000
}

/// What is added to the inflated round trip, for at home the round trip is about a millisecond and
/// would double by chance.
pub const RTT_MARGIN_NS: u64 = 30_000_000;

/// Whether the queue on the way is growing.
pub open spec fn queueing(rtt_min: Option<u64>, rtt_ns: u64) -> bool {
    rtt_min is Some && rtt_ns > 0 && rtt_ns > inflated(rtt_min->0 as nat) + RTT_MARGIN_NS
}

/// 1.3 times a rate: 1.3 in binary32 is 10905190 / 2^23.
pub open spec fn faster(kbps: nat) -> nat {
    rounded(rounded(kbps) * 10_905_190) / 0x80_0000
}

/// 0.75 times a rate.
pub open spec fn slower(kbps: nat) -> nat {
    rounded(rounded(kbps) * 3) / 4
}

pub open spec fn within(kbps: nat, ceiling: u32) -> u32 {
    if kbps < MIN_KBPS {
        MIN_KBPS
    } else if kbps > ceiling {
        ceiling
    } else {
        kbps as u32
    }
}

/// Whether a change, as a binary32 quotient, is below 0.05: the exact quotient is at most the
/// middle between that number, 13421773 / 2^28, and the one before it.
pub open spec fn slight(current: nat, next: nat) -> bool {
    let a = rounded(current);
    let b = rounded(next);
    let difference = if a < b {
        (b - a) as nat
    } else {
        (a - b) as nat
    };
    rounded(difference) * 0x2000_0000 <= a * 26_843_545
}

impl Rate {
    pub open spec fn new(ceiling_kbps: u32) -> Rate {
        let ceiling = if ceiling_kbps < MIN_KBPS {
            MIN_KBPS
        } else {
            ceiling_kbps
        };
        Rate {
            ceiling,
            current: if ceiling < START_KBPS {
                ceiling
            } else {
                START_KBPS
            },
            rtt_min: None,
            last: None,
        }
    }

    /// The rate lies between the floor and the ceiling.
    pub open spec fn wf(self) -> bool {
        MIN_KBPS <= self.current <= self.ceiling
    }

    /// The state with a sample taken down.
    pub open spec fn seen(self, sample: LinkSample) -> Rate {
        Rate {
            rtt_min: match self.rtt_min {
                _ if sample.rtt_ns == 0 => self.rtt_min,
                Some(min) if min <= sample.rtt_ns => Some(min),
                _ => Some(sample.rtt_ns),
            },
            last: Some(sample),
            ..self
        }
    }

    /// Goes to another rate where it is worth it. Reaching the floor or the ceiling is reported
    /// however small the step.
    pub open spec fn committed(self, next: u32) -> (Rate, Option<u32>) {
        if next == self.current || (slight(self.current as nat, next as nat) && next != MIN_KBPS
            && next != self.ceiling) {
            (self, None)
        } else {
            (Rate { current: next, ..self }, Some(next))
        }
    }

    /// The state under another ceiling, and the new rate where it had to come down.
    pub open spec fn capped(self, kbps: u32) -> (Rate, Option<u32>) {
        let ceiling = if kbps < MIN_KBPS {
            MIN_KBPS
        } else {
            kbps
        };
        if ceiling < self.current {
            (Rate { ceiling, current: ceiling, ..self }, Some(ceiling))
        } else {
            (Rate { ceiling, ..self }, None)
        }
    }

    pub open spec fn lost(self, sample: LinkSample) -> nat {
        grown(sample.lost_packets, self.last->0.lost_packets)
    }

    pub open spec fn sent(self, sample: LinkSample) -> nat {
        grown(sample.sent_packets, self.last->0.sent_packets)
    }

    /// Whether the link does not carry what is sent.
    pub open spec fn congested(self, sample: LinkSample) -> bool {
        lossy(self.lost(sample), self.sent(sample)) || queueing(
            self.seen(sample).rtt_min,
            sample.rtt_ns,
        )
    }

    /// The state after a sample, and the new rate where it changed. The first sample is only
    /// something to compare with. Between clean and congested the rate stays.
    pub open spec fn updated(self, sample: LinkSample) -> (Rate, Option<u32>) {
        let seen = self.seen(sample);
        if self.last is None {
            (seen, None)
        } else if self.congested(sample) {
            seen.committed(within(slower(self.current as nat), self.ceiling))
        } else if lossless(self.lost(sample), self.sent(sample)) {
            seen.committed(within(faster(self.current as nat), self.ceiling))
        } else {
            (seen, None)
        }
    }
}

impl View for RateController {
    type V = Rate;

    closed spec fn view(&self) -> Rate {
        Rate {
            ceiling: self.ceiling,
            current: self.current,
            rtt_min: self.rtt_min,
            last: self.last,
        }
    }
}

fn is_lossy(lost: u64, sent: u64) -> (r: bool)
    ensures
        r == lossy(lost as nat, sent as nat),
{
    sent > 0 && round(lost as u128) * 0x4000_0000 > round(sent as u128) * 21_474_837
}

fn is_lossless(lost: u64, sent: u64) -> (r: bool)
    ensures
        r == lossless(lost as nat, sent as nat),
{
    sent == 0 || round(lost as u128) * 0x1_0000_0000 < round(sent as u128) * 21_474_835
}

fn inflate(ns: u64) -> (r: u128)
    ensures
        r == inflated(ns as nat),
        r < 0x8000_0000_0000_0000_0000_0000_0000_0000,
{
    let secs: u128 = ns as u128 / NANOS;
    let nanos: u128 = ns as u128 % NANOS;
    let scaled: u128 = round(nanos) * 0x80_0000_0000_0000;
    let sticky: u128 = if scaled % NANOS != 0 {
        1
    } else {
        0
    };
    let part: u128 = round(2 * (scaled / NANOS) + sticky);
    let whole: u128 = round(secs) * 0x100_0000_0000_0000;
    let sum: u128 = round(whole + part);
    let grown: u128 = round(3 * sum) * NANOS;
    proof {
        nearest_bounds(grown as nat, 0x200_0000_0000_0000);
    }
    nearest_of(grown, 0x200_0000_0000_0000) / 0x200_0000_0000_0000
}

fn is_queueing(rtt_min: Option<u64>, rtt_ns: u64) -> (r: bool)
    ensures
        r == queueing(rtt_min, rtt_ns),
{
    match rtt_min {
        Some(min) => rtt_ns > 0 && rtt_ns as u128 > inflate(min) + RTT_MARGIN_NS as u128,
        None => false,
    }
}

fn scale_up(kbps: u32) -> (r: u128)
    ensures
        r == faster(kbps as nat),
{
    round(round(kbps as u128) * 10_905_190) / 0x80_0000
}

fn scale_down(kbps: u32) -> (r: u128)
    ensures
        r == slower(kbps as nat),
{
    round(round(kbps as u128) * 3) / 4
}

fn hold_within(kbps: u128, ceiling: u32) -> (r: u32)
    ensures
        r == within(kbps as nat, ceiling),
{
    if kbps < MIN_KBPS as u128 {
        MIN_KBPS
    } else if kbps > ceiling as u128 {
        ceiling
    } else {
        kbps as u32
    }
}

fn is_slight(current: u32, next: u32) -> (r: bool)
    ensures
        r == slight(current as nat, next as nat),
{
    let a: u128 = round(current as u128);
    let b: u128 = round(next as u128);
    let difference: u128 = if a < b {
        b - a
    } else {
        a - b
    };
    round(difference) * 0x2000_0000 <= a * 26_843_545
}

fn growth(now: u64, before: u64) -> (r: u64)
    ensures
        r == grown(now, before),
{
    if now >= before {
        now - before
    } else {
        0
    }
}

impl RateController {
    pub fn new(ceiling_kbps: u32) -> (r: Self)
        ensures
            r@ == Rate::new(ceiling_kbps),
            r@.wf(),
    {
        let ceiling: u32 = if ceiling_kbps < MIN_KBPS {
            MIN_KBPS
        } else {
            ceiling_kbps
        };
        let current: u32 = if ceiling < START_KBPS {
            ceiling
        } else {
            START_KBPS
        };
        RateController { ceiling, current, rtt_min: None, last: None }
    }

    pub fn current(&self) -> (r: u32)
        ensures
            r == self@.current,
    {
        self.current
    }

    pub fn ceiling(&self) -> (r: u32)
        ensures
            r == self@.ceiling,
    {
        self.ceiling
    }

    /// Changes the ceiling. The rate comes back where it had to come down with it; a higher
    /// ceiling is climbed to step by step.
    pub fn set_ceiling(&mut self, kbps: u32) -> (r: Option<u32>)
        requires
            old(self)@.wf(),
        ensures
            final(self)@.wf(),
            (final(self)@, r) == old(self)@.capped(kbps),
    {
        self.ceiling = if kbps < MIN_KBPS {
            MIN_KBPS
        } else {
            kbps
        };
        let r: Option<u32> = if self.ceiling < self.current {
            self.current = self.ceiling;
            Some(self.current)
        } else {
            None
        };
        assert(self@ =~= old(self)@.capped(kbps).0);
        r
    }

    /// Takes in the state of the link. The rate comes back where it changed.
    pub fn update(&mut self, sample: LinkSample) -> (r: Option<u32>)
        requires
            old(self)@.wf(),
        ensures
            final(self)@.wf(),
            (final(self)@, r) == old(self)@.updated(sample),
    {
        if sample.rtt_ns > 0 {
            self.rtt_min = match self.rtt_min {
                Some(min) => Some(
                    if min <= sample.rtt_ns {
                        min
                    } else {
                        sample.rtt_ns
                    },
                ),
                None => Some(sample.rtt_ns),
            };
        }
        let previous: Option<LinkSample> = self.last;
        self.last = Some(sample);
        assert(self@ =~= old(self)@.seen(sample));
        let previous: LinkSample = match previous {
            Some(previous) => previous,
            None => return None,
        };
        let sent: u64 = growth(sample.sent_packets, previous.sent_packets);
        let lost: u64 = growth(sample.lost_packets, previous.lost_packets);
        let target: u128 = if is_lossy(lost, sent) || is_queueing(self.rtt_min, sample.rtt_ns) {
            scale_down(self.current)
        } else if is_lossless(lost, sent) {
            scale_up(self.current)
        } else {
            return None;
        };
        let next: u32 = hold_within(target, self.ceiling);
        self.commit(next)
    }

    fn commit(&mut self, next: u32) -> (r: Option<u32>)
        ensures
            (final(self)@, r) == old(self)@.committed(next),
    {
        if next == self.current {
            return None;
        }
        if is_slight(self.current, next) && next != MIN_KBPS && next != self.ceiling {
            return None;
        }
        self.current = next;
        assert(self@ =~= (Rate { current: next, ..old(self)@ }));
        Some(next)
    }
}

proof fn big_steps_are_not_slight(current: nat, next: nat)
    requires
        current >= MIN_KBPS,
        10 * next <= 8 * current || 10 * next >= 12 * current,
    ensures
        !slight(current, next),
{
    let a = rounded(current);
    let b = rounded(next);
    rounded_is_close(current);
    rounded_is_close(next);
    let d = if a < b {
        (b - a) as nat
    } else {
        (a - b) as nat
    };
    rounded_is_close(d);
    assert(10 * d >= a);
}

/// A congested link brings the rate down at once, unless it is at the floor already.
pub proof fn congestion_backs_off(state: Rate, sample: LinkSample)
    requires
        state.wf(),
        state.last is Some,
        state.congested(sample),
        state.current > MIN_KBPS,
    ensures
        state.updated(sample).1 matches Some(kbps) && MIN_KBPS <= kbps < state.current
            && state.updated(sample).0.current == kbps,
{
    let c = state.current as nat;
    rounded_is_close(c);
    rounded_is_close(rounded(c) * 3);
    let next = within(slower(c), state.ceiling);
    assert(10 * slower(c) <= 8 * c);
    if next != MIN_KBPS {
        big_steps_are_not_slight(c, next as nat);
    }
}

/// A clean link lets the rate climb until it reaches the ceiling.
pub proof fn clean_link_climbs(state: Rate, sample: LinkSample)
    requires
        state.wf(),
        state.last is Some,
        !state.congested(sample),
        lossless(state.lost(sample), state.sent(sample)),
        state.current < state.ceiling,
    ensures
        state.updated(sample).1 matches Some(kbps) && state.current < kbps <= state.ceiling
            && state.updated(sample).0.current == kbps,
{
    let c = state.current as nat;
    rounded_is_close(c);
    rounded_is_close(rounded(c) * 10_905_190);
    let next = within(faster(c), state.ceiling);
    assert(10 * faster(c) >= 12 * c);
    if next != state.ceiling {
        big_steps_are_not_slight(c, next as nat);
    }
}

/// Whatever the user wishes for and the link is like, the rate stays between the floor and the
/// ceiling.
pub proof fn the_ceiling_holds(state: Rate, kbps: u32, sample: LinkSample)
    requires
        state.wf(),
    ensures
        state.capped(kbps).0.wf(),
        state.updated(sample).0.wf(),
        state.capped(kbps).1 matches Some(told) ==> told == state.capped(kbps).0.current,
        state.updated(sample).1 matches Some(told) ==> told == state.updated(sample).0.current,
{
}

/// The first sample changes no rate.
pub proof fn first_sample_is_a_baseline(state: Rate, sample: LinkSample)
    requires
        state.last is None,
    ensures
        state.updated(sample).1 is None,
        state.updated(sample).0.current == state.current,
{
}

/// How far one and a half times a round trip may be off, by way of binary32 seconds: a
/// millisecond, and about one part in a million where it takes hours.
pub open spec fn doubt(ns: nat) -> nat {
    if ns < 8_000_000_000_000 {
        1_000_000
    } else {
        ns / 0x10_0000
    }
}

/// The fraction of a second is at most 100 nanoseconds off.
proof fn fraction_is_close(nanos: nat)
    requires
        nanos < NANOS,
    ensures
        fraction_part(nanos) * NANOS <= (nanos + 100) * 0x100_0000_0000_0000,
        nanos * 0x100_0000_0000_0000 <= fraction_part(nanos) * NANOS + 100 * 0x100_0000_0000_0000,
{
    vstd::arithmetic::power2::lemma2_to64();
    vstd::arithmetic::power2::lemma2_to64_rest();
    let a = rounded(nanos);
    rounded_is_within_half(nanos, 6);
    let scaled = a * 0x80_0000_0000_0000;
    let q = scaled / NANOS as nat;
    let n = 2 * q + if scaled % NANOS as nat != 0 {
        1nat
    } else {
        0
    };
    assert(n * NANOS <= 2 * scaled + NANOS);
    assert(2 * scaled <= n * NANOS + 2 * NANOS);
    rounded_is_within_half(n, 33);
}

proof fn short_spans_inflate_right(ns: nat)
    requires
        ns < 8_000_000_000_000,
    ensures
        2 * inflated(ns) < 3 * ns + 2_000_000,
        3 * ns < 2 * inflated(ns) + 2_000_000,
{
    vstd::arithmetic::power2::lemma2_to64();
    vstd::arithmetic::power2::lemma2_to64_rest();
    let secs = ns / NANOS as nat;
    let nanos = ns % NANOS as nat;
    rounded_bounds(secs);
    fraction_is_close(nanos);
    let sum = secs * 0x100_0000_0000_0000 + fraction_part(nanos);
    rounded_is_within_half(sum, 45);
    let t = rounded(sum);
    rounded_is_within_half(3 * t, 47);
    let grown = rounded(3 * t) * NANOS as nat;
    whole_nearest(grown);
}

proof fn whole_nearest(grown: nat)
    ensures
        ({
            let r = nearest(grown, 0x200_0000_0000_0000) / 0x200_0000_0000_0000;
            &&& r * 0x200_0000_0000_0000 <= grown + 0x200_0000_0000_0000
            &&& grown <= r * 0x200_0000_0000_0000 + 0x200_0000_0000_0000
        }),
{
    nearest_bounds(grown, 0x200_0000_0000_0000);
}

proof fn long_spans_inflate_right(ns: nat)
    requires
        ns >= 8_000_000_000_000,
    ensures
        2 * inflated(ns) < 3 * ns + 2 * (ns / 0x10_0000),
        3 * ns < 2 * inflated(ns) + 2 * (ns / 0x10_0000),
{
    let secs = ns / NANOS as nat;
    let nanos = ns % NANOS as nat;
    rounded_is_close(secs);
    fraction_is_close(nanos);
    let sum = rounded(secs) * 0x100_0000_0000_0000 + fraction_part(nanos);
    rounded_is_close(sum);
    let t = rounded(sum);
    rounded_is_close(3 * t);
    let grown = rounded(3 * t) * NANOS as nat;
    whole_nearest(grown);
}

/// One and a half times a round trip, within the doubt.
pub proof fn spans_inflate_right(ns: nat)
    ensures
        2 * inflated(ns) < 3 * ns + 2 * doubt(ns),
        3 * ns < 2 * inflated(ns) + 2 * doubt(ns),
{
    if ns < 8_000_000_000_000 {
        short_spans_inflate_right(ns);
    } else {
        long_spans_inflate_right(ns);
    }
}

/// The round trip has grown by more than half and 30 milliseconds, beyond doubt.
pub open spec fn much_later(rtt_min: Option<u64>, rtt_ns: u64) -> bool {
    rtt_ns > 0 && (rtt_min matches Some(min) && 2 * rtt_ns >= 3 * min + 2 * RTT_MARGIN_NS + 2
        * doubt(min as nat))
}

/// The round trip has not grown by half and 30 milliseconds, beyond doubt.
pub open spec fn not_later(rtt_min: Option<u64>, rtt_ns: u64) -> bool {
    rtt_ns > 0 ==> (rtt_min matches Some(min) && 2 * rtt_ns + 2 * doubt(min as nat) <= 3 * min + 2
        * RTT_MARGIN_NS)
}

/// Over 2 in 100 packets lost, or a round trip much longer than the shortest: the rate comes down,
/// where it is not at the floor. Under 1 in 200 lost and no longer round trip: the rate goes up,
/// where it is not at the ceiling. In between it stays. The counters grow by less than 2^23 packets
/// from one sample to the next.
pub proof fn the_link_sets_the_rate(state: Rate, sample: LinkSample)
    requires
        state.wf(),
        state.last is Some,
        state.sent(sample) < 0x80_0000,
    ensures
        ({
            let lost = state.lost(sample);
            let sent = state.sent(sample);
            let rtt_min = state.seen(sample).rtt_min;
            let (after, told) = state.updated(sample);
            let many_lost = sent > 0 && 50 * lost > sent;
            let few_lost = sent == 0 || 200 * lost < sent;
            if many_lost || much_later(rtt_min, sample.rtt_ns) {
                if state.current > MIN_KBPS {
                    MIN_KBPS <= after.current < state.current && told == Some(after.current)
                } else {
                    after.current == MIN_KBPS && told is None
                }
            } else if not_later(rtt_min, sample.rtt_ns) {
                if !few_lost {
                    after.current == state.current && told is None
                } else if state.current < state.ceiling {
                    state.current < after.current <= state.ceiling && told == Some(after.current)
                } else {
                    after.current == state.ceiling && told is None
                }
            } else {
                // Within the doubt it comes down or stays, or goes up.
                MIN_KBPS <= after.current <= state.ceiling
            }
        }),
{
    let lost = state.lost(sample);
    let sent = state.sent(sample);
    loss_in_whole_numbers(lost, sent);
    match state.seen(sample).rtt_min {
        Some(min) => spans_inflate_right(min as nat),
        None => {},
    }
    if state.congested(sample) {
        if state.current > MIN_KBPS {
            congestion_backs_off(state, sample);
        } else {
            rounded_bounds(state.current as nat);
            rounded_bounds(rounded(state.current as nat) * 3);
            assert(slower(600) == 450);
        }
    } else if lossless(lost, sent) {
        if state.current < state.ceiling {
            clean_link_climbs(state, sample);
        } else {
            rounded_is_close(state.current as nat);
            rounded_is_close(rounded(state.current as nat) * 10_905_190);
            assert(faster(state.current as nat) >= state.current);
        }
    }
}

proof fn loss_in_whole_numbers(lost: nat, sent: nat)
    requires
        sent < 0x80_0000,
    ensures
        lossy(lost, sent) == (sent > 0 && 50 * lost > sent),
        lossless(lost, sent) == (sent == 0 || 200 * lost < sent),
{
    rounded_bounds(sent);
    rounded_bounds(lost);
    rounded_is_close(lost);
}

/// A new ceiling counts from the moment it is set, whatever was before: it is the number asked for,
/// or 600 where that is lower. The rate comes down to it where it was above, and only then the new
/// rate is told. What is known of the link stays.
pub proof fn a_new_ceiling_counts_at_once(state: Rate, kbps: u32)
    ensures
        ({
            let (after, told) = state.capped(kbps);
            &&& kbps >= 600 ==> after.ceiling == kbps
            &&& kbps < 600 ==> after.ceiling == 600
            &&& state.current <= after.ceiling ==> after.current == state.current && told is None
            &&& state.current > after.ceiling ==> after.current == after.ceiling && told == Some(
                after.current,
            )
            &&& after.rtt_min == state.rtt_min
            &&& after.last == state.last
        }),
{
}

/// The state after a number of samples.
pub open spec fn after_samples(state: Rate, samples: Seq<LinkSample>) -> Rate
    decreases samples.len(),
{
    if samples.len() == 0 {
        state
    } else {
        after_samples(state, samples.drop_last()).updated(samples.last()).0
    }
}

proof fn samples_keep_the_bounds(state: Rate, samples: Seq<LinkSample>)
    requires
        600 <= state.current <= state.ceiling,
    ensures
        after_samples(state, samples).ceiling == state.ceiling,
        600 <= after_samples(state, samples).current <= state.ceiling,
    decreases samples.len(),
{
    if samples.len() > 0 {
        samples_keep_the_bounds(state, samples.drop_last());
    }
}

/// Once a ceiling is set, the rate never lies above it, nor under 600, however the link does, until
/// another one is set. Nothing above it is told either.
pub proof fn no_rate_above_a_set_ceiling(
    state: Rate,
    kbps: u32,
    samples: Seq<LinkSample>,
    next: LinkSample,
)
    requires
        state.wf(),
    ensures
        ({
            let limit: u32 = if kbps < 600 {
                600
            } else {
                kbps
            };
            let then = after_samples(state.capped(kbps).0, samples);
            &&& 600 <= then.current <= limit
            &&& then.ceiling == limit
            &&& state.capped(kbps).1 matches Some(told) ==> told <= limit
            &&& then.updated(next).1 matches Some(told) ==> 600 <= told <= limit
        }),
{
    samples_keep_the_bounds(state.capped(kbps).0, samples);
}

/// A session begins at 8000, or at the ceiling where that is lower, and knows nothing of the link.
/// A ceiling under 600 counts as 600.
pub proof fn sessions_begin_carefully(kbps: u32)
    ensures
        ({
            let state = Rate::new(kbps);
            &&& kbps >= 600 ==> state.ceiling == kbps
            &&& kbps < 600 ==> state.ceiling == 600
            &&& state.ceiling <= 8000 ==> state.current == state.ceiling
            &&& state.ceiling > 8000 ==> state.current == 8000
            &&& state.rtt_min is None
            &&& state.last is None
        }),
{
}

/// Of all round trips that were measured the shortest is remembered; 0 is no measurement. The last
/// sample is what the next one is compared with.
pub proof fn the_shortest_round_trip_is_kept(state: Rate, samples: Seq<LinkSample>)
    requires
        state.rtt_min is None,
        samples.len() > 0,
    ensures
        ({
            let then = after_samples(state, samples);
            &&& then.last == Some(samples.last())
            &&& then.rtt_min is None <==> forall|i: int|
                0 <= i < samples.len() ==> (#[trigger] samples[i]).rtt_ns == 0
            &&& then.rtt_min matches Some(least) ==> least > 0 && (exists|i: int|
                0 <= i < samples.len() && (#[trigger] samples[i]).rtt_ns == least) && forall|
                i: int,
            |
                0 <= i < samples.len() && (#[trigger] samples[i]).rtt_ns > 0 ==> least
                    <= samples[i].rtt_ns
        }),
    decreases samples.len(),
{
    let front = samples.drop_last();
    let now = samples.last();
    let then = after_samples(state, samples);
    assert(samples[samples.len() - 1] == now);
    if front.len() > 0 {
        the_shortest_round_trip_is_kept(state, front);
        let before = after_samples(state, front);
        assert(then.rtt_min == before.seen(now).rtt_min);
        assert forall|i: int| 0 <= i < front.len() implies samples[i] == front[i] by {}
        if before.rtt_min is Some && then.rtt_min == before.rtt_min {
            let k = choose|k: int|
                0 <= k < front.len() && (#[trigger] front[k]).rtt_ns == before.rtt_min->0;
            assert(samples[k].rtt_ns == before.rtt_min->0);
        }
        if before.rtt_min is Some {
            let k = choose|k: int|
                0 <= k < front.len() && (#[trigger] front[k]).rtt_ns == before.rtt_min->0;
            assert(samples[k].rtt_ns > 0);
        } else {
            assert forall|i: int| 0 <= i < front.len() implies (#[trigger] samples[i]).rtt_ns
                == 0 by {
                assert(front[i].rtt_ns == 0);
            }
        }
        assert forall|i: int|
            0 <= i < samples.len() && (#[trigger] samples[i]).rtt_ns > 0
                && then.rtt_min is Some implies then.rtt_min->0 <= samples[i].rtt_ns by {
            if i < front.len() {
                assert(front[i].rtt_ns > 0);
            }
        }
    } else {
        assert(front =~= seq![]);
        assert(after_samples(state, front) == state);
        assert(samples.len() == 1);
    }
}

/// What counts between two samples is how much the counters grew; one that went back grew by
/// nothing.
pub proof fn only_growth_counts(state: Rate, sample: LinkSample)
    requires
        state.last is Some,
    ensures
        ({
            let before = state.last->0;
            &&& sample.lost_packets >= before.lost_packets ==> before.lost_packets + state.lost(
                sample,
            ) == sample.lost_packets
            &&& sample.sent_packets >= before.sent_packets ==> before.sent_packets + state.sent(
                sample,
            ) == sample.sent_packets
            &&& sample.lost_packets < before.lost_packets ==> state.lost(sample) == 0
            &&& sample.sent_packets < before.sent_packets ==> state.sent(sample) == 0
        }),
{
}

/// A queue is a round trip of more than one and a half times the shortest and 30 milliseconds, to
/// within a millisecond while the shortest is under two hours. Where no round trip is known there
/// is none.
pub proof fn a_queue_is_a_longer_round_trip(least: u64, rtt_ns: u64)
    requires
        least < 7_200_000_000_000,
    ensures
        2 * rtt_ns >= 3 * least + 62_000_000 ==> queueing(Some(least), rtt_ns),
        2 * rtt_ns <= 3 * least + 58_000_000 ==> !queueing(Some(least), rtt_ns),
        !queueing(Some(least), 0),
        !queueing(None, rtt_ns),
{
    spans_inflate_right(least as nat);
}

/// A congested link takes a quarter off the rate, to the kilobit, down to 600 at most.
pub proof fn a_quarter_comes_off(state: Rate, sample: LinkSample)
    requires
        state.wf(),
        state.last is Some,
        state.congested(sample),
        state.current < 4_000_000,
    ensures
        state.updated(sample).0.current as int == if state.current < 800 {
            600
        } else {
            3 * state.current / 4
        },
        state.updated(sample).0.ceiling == state.ceiling,
{
    rounded_bounds(state.current as nat);
    rounded_bounds(rounded(state.current as nat) * 3);
    assert(slower(state.current as nat) == (3 * state.current as nat) / 4);
    if state.current > 600 {
        congestion_backs_off(state, sample);
    }
}

/// A clean link adds three tenths to the rate, to within two kilobits, up to the ceiling at most.
pub proof fn three_tenths_are_added(state: Rate, sample: LinkSample)
    requires
        state.wf(),
        state.last is Some,
        !state.congested(sample),
        lossless(state.lost(sample), state.sent(sample)),
        state.current < 4_000_000,
    ensures
        ({
            let after = state.updated(sample).0;
            &&& after.ceiling == state.ceiling
            &&& after.current <= state.ceiling
            &&& 10 * after.current <= 13 * state.current + 20
            &&& after.current == state.ceiling || 10 * after.current + 20 >= 13 * state.current
        }),
{
    let c = state.current as nat;
    rounded_bounds(c);
    rounded_is_close(c * 10_905_190);
    let up = faster(c);
    assert(0x80_0000 * up <= rounded(c * 10_905_190) < 0x80_0000 * (up + 1));
    assert(10 * up <= 13 * c + 20 && 13 * c <= 10 * up + 20);
    if state.current < state.ceiling {
        clean_link_climbs(state, sample);
    }
}

/// However a ceiling is set: from then on it is the number asked for, 600 at least; the rate is at
/// most that, and is told exactly where it had to come down.
pub proof fn setting_a_ceiling_holds_the_rate(
    controller: &mut RateController,
    kbps: u32,
    told: Option<u32>,
)
    requires
        call_ensures(RateController::set_ceiling, (controller, kbps), told),
    ensures
        kbps >= 600 ==> final(controller)@.ceiling == kbps,
        kbps < 600 ==> final(controller)@.ceiling == 600,
        old(controller)@.current <= final(controller)@.ceiling ==> final(controller)@.current
            == old(controller)@.current && told is None,
        old(controller)@.current > final(controller)@.ceiling ==> final(controller)@.current
            == final(controller)@.ceiling && told == Some(final(controller)@.ceiling),
{
}

/// A sample changes the rate within the ceiling only, and what is told is the rate from then on.
pub proof fn samples_move_the_rate_within(
    controller: &mut RateController,
    sample: LinkSample,
    told: Option<u32>,
)
    requires
        old(controller)@.wf(),
        call_ensures(RateController::update, (controller, sample), told),
    ensures
        final(controller)@.ceiling == old(controller)@.ceiling,
        600 <= final(controller)@.current <= old(controller)@.ceiling,
        final(controller)@.last == Some(sample),
        told is None ==> final(controller)@.current == old(controller)@.current,
        told matches Some(kbps) ==> kbps == final(controller)@.current && kbps != old(controller)@.current,
        old(controller)@.last is None ==> told is None,
{
}

/// A new controller tells its rate and its ceiling, and the rate is not above it.
pub proof fn controllers_tell_their_rate(
    ceiling_kbps: u32,
    fresh: RateController,
    now: u32,
    top: u32,
)
    requires
        call_ensures(RateController::new, (ceiling_kbps,), fresh),
        call_ensures(RateController::current, (&fresh,), now),
        call_ensures(RateController::ceiling, (&fresh,), top),
    ensures
        now == fresh@.current && top == fresh@.ceiling,
        fresh@ == Rate::new(ceiling_kbps),
        now <= top,
{
}

} // verus!
