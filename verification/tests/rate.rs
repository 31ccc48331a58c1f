use std::time::Duration;

use remote_desktop::session::rate::{LinkSample, RateController, MIN_KBPS, START_KBPS};

fn clean(tick: u64) -> LinkSample {
    LinkSample {
        rtt_ns: 20_000_000,
        lost_packets: 0,
        sent_packets: tick * 1000,
    }
}

#[test]
fn clean_link_climbs_to_the_ceiling_and_stops() {
    let mut rate = RateController::new(30_000);
    assert_eq!(rate.current(), START_KBPS);
    for tick in 1..=10 {
        rate.update(clean(tick));
    }
    assert_eq!(rate.current(), 30_000, "đường sạch mà không leo tới trần");
    assert_eq!(rate.update(clean(11)), None);
}

#[test]
fn packet_loss_backs_off_but_never_below_the_floor() {
    let mut rate = RateController::new(30_000);
    rate.update(clean(1));
    let before = rate.current();

    let hit = rate
        .update(LinkSample {
            rtt_ns: 20_000_000,
            lost_packets: 100,
            sent_packets: 2000,
        })
        .expect("mất gói mà không lùi");
    assert!(hit < before, "{hit} không nhỏ hơn {before}");

    for tick in 3..40 {
        rate.update(LinkSample {
            rtt_ns: 20_000_000,
            lost_packets: tick * 100,
            sent_packets: tick * 1000,
        });
    }
    assert_eq!(rate.current(), MIN_KBPS);
}

#[test]
fn growing_rtt_backs_off_even_without_any_loss() {
    let mut rate = RateController::new(30_000);
    rate.update(clean(1));
    rate.update(clean(2));
    let before = rate.current();

    let after = rate
        .update(LinkSample {
            rtt_ns: 220_000_000,
            lost_packets: 0,
            sent_packets: 3000,
        })
        .expect("RTT phình mà không lùi");
    assert!(after < before, "{after} không nhỏ hơn {before}");
}

#[test]
fn small_rtt_jitter_is_not_congestion() {
    let mut rate = RateController::new(30_000);
    rate.update(LinkSample {
        rtt_ns: 1_000_000,
        lost_packets: 0,
        sent_packets: 1000,
    });
    let before = rate.current();
    let after = rate.update(LinkSample {
        rtt_ns: 5_000_000,
        lost_packets: 0,
        sent_packets: 2000,
    });
    assert!(
        after.is_none_or(|kbps| kbps > before),
        "dao động RTT vặt bị hiểu thành tắc nghẽn"
    );
}

#[test]
fn lowering_the_ceiling_pulls_the_current_rate_down_at_once() {
    let mut rate = RateController::new(30_000);
    for tick in 1..=10 {
        rate.update(clean(tick));
    }
    assert_eq!(rate.current(), 30_000);

    assert_eq!(rate.set_ceiling(4_000), Some(4_000));
    assert_eq!(rate.current(), 4_000);
    assert_eq!(rate.set_ceiling(30_000), None);
    assert_eq!(rate.current(), 4_000);
}

#[test]
fn the_first_sample_is_only_a_baseline() {
    let mut rate = RateController::new(30_000);
    assert_eq!(
        rate.update(LinkSample {
            rtt_ns: 20_000_000,
            lost_packets: 5_000,
            sent_packets: 10_000,
        }),
        None
    );
    assert_eq!(rate.current(), START_KBPS);
}

#[test]
fn a_ceiling_below_the_floor_still_leaves_a_usable_rate() {
    let rate = RateController::new(10);
    assert_eq!(rate.current(), MIN_KBPS);
    assert_eq!(rate.ceiling(), MIN_KBPS);
}

/// The same rules in floating-point arithmetic.
struct Float {
    ceiling: u32,
    current: u32,
    rtt_min: Option<Duration>,
    last: Option<LinkSample>,
}

impl Float {
    fn update(&mut self, sample: LinkSample) -> Option<u32> {
        let rtt = Duration::from_nanos(sample.rtt_ns);
        if !rtt.is_zero() {
            self.rtt_min = Some(self.rtt_min.map_or(rtt, |min| min.min(rtt)));
        }
        let previous = self.last.replace(sample)?;
        let sent = sample.sent_packets.saturating_sub(previous.sent_packets);
        let lost = sample.lost_packets.saturating_sub(previous.lost_packets);
        let loss = if sent == 0 { 0.0 } else { lost as f32 / sent as f32 };
        let queueing = match self.rtt_min {
            Some(min) if !rtt.is_zero() => rtt > min.mul_f32(1.5) + Duration::from_millis(30),
            _ => false,
        };
        let target = if loss > 0.02 || queueing {
            self.current as f32 * 0.75
        } else if loss < 0.005 {
            self.current as f32 * 1.3
        } else {
            return None;
        };
        let next = (target as u32).clamp(600, self.ceiling);
        if next == self.current {
            return None;
        }
        let change = (next as f32 - self.current as f32).abs() / self.current as f32;
        if change < 0.05 && next != 600 && next != self.ceiling {
            return None;
        }
        self.current = next;
        Some(next)
    }
}

fn agrees(ceiling: u32, samples: &[LinkSample]) {
    let mut ours = RateController::new(ceiling);
    let mut float = Float {
        ceiling: ours.ceiling(),
        current: ours.current(),
        rtt_min: None,
        last: None,
    };
    for sample in samples {
        assert_eq!(ours.update(*sample), float.update(*sample), "{sample:?}");
        assert_eq!(ours.current(), float.current);
    }
}

#[test]
fn the_rules_agree_with_floating_point() {
    let mut seed: u64 = 88172645463325252;
    let mut next = move |limit: u64| {
        seed ^= seed << 13;
        seed ^= seed >> 7;
        seed ^= seed << 17;
        seed % limit
    };
    for round in 0..300u64 {
        let ceiling = next(1 << (10 + round % 22)) as u32;
        let (mut lost, mut sent) = (0u64, 0u64);
        let mut samples = Vec::new();
        for step in 0..60u64 {
            let more = next(1 << (1 + (round + step) % 40));
            sent += more;
            lost += match step % 5 {
                0 => more / 50,
                1 => more / 200,
                2 => more * 20 / 1000 + next(2),
                3 => more * 5 / 1000 + next(2),
                _ => next(3),
            };
            let rtt_ns = match round % 4 {
                0 => 1_000_000 + next(60_000_000),
                1 => next(1 << 33),
                2 => 100_000_001 + 50 * next(1 << 22),
                _ => next(1 << 45),
            };
            samples.push(LinkSample { rtt_ns, lost_packets: lost, sent_packets: sent });
        }
        agrees(ceiling, &samples);
    }
}

#[test]
fn the_rules_agree_on_the_edges() {
    let still = |lost: u64, sent: u64, rtt_ns: u64| LinkSample {
        rtt_ns,
        lost_packets: lost,
        sent_packets: sent,
    };
    agrees(
        u32::MAX,
        &[
            still(0, 0, 0),
            still(2, 100, 1),
            still(3, 300, 45_000_000),
            still(4, 1300, 30_000_001),
            still(4, 1300, 30_000_002),
            still(9, 1000, 30_000_003),
            still(u64::MAX, u64::MAX, u64::MAX),
            still(0, 0, 5),
        ],
    );
    let mut climb = Vec::new();
    for n in 0..60 {
        climb.push(still(0, n * 1000, 10_000_000));
    }
    agrees(u32::MAX, &climb);
    agrees(601, &climb);
    agrees(0, &climb);
    for rtt in [44_999_999u64, 45_000_000, 45_000_001, 45_000_002] {
        agrees(9_000, &[still(0, 0, 10_000_000), still(0, 10, rtt)]);
        agrees(9_000, &[still(0, 0, 10_000_001), still(0, 10, rtt)]);
    }
}

/// Whole numbers decide, save for a millisecond.
#[test]
fn loss_and_delay_set_the_rate() {
    let first = LinkSample { rtt_ns: 20_000_000, lost_packets: 0, sent_packets: 0 };
    let next = |lost: u64, rtt_ms: u64| {
        let mut rate = RateController::new(30_000);
        rate.update(first);
        rate.update(LinkSample {
            rtt_ns: rtt_ms * 1_000_000,
            lost_packets: lost,
            sent_packets: 1_000,
        })
    };
    assert_eq!(next(21, 20), Some(6_000));
    assert_eq!(next(20, 20), None);
    assert_eq!(next(5, 20), None);
    assert_eq!(next(4, 20), Some(10_400));
    assert_eq!(next(0, 61), Some(6_000));
    assert_eq!(next(0, 59), Some(10_400));
}
