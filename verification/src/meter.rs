//! Counters over time.

use vstd::prelude::*;
use crate::blocklist::elapsed;

verus! {

/// Packets counted over a stretch of time.
#[derive(Debug, Clone, Copy, PartialEq, Eq, Structural)]
pub struct RateSample {
    pub packets: u64,
    pub nanos: u128,
}

/// Takes a sample of a growing counter at most once per period.
#[derive(Debug, Clone, Copy)]
pub struct RateMeter {
    pub last_count: u64,
    pub last_time: u128,
    pub period_secs: u64,
}

impl RateMeter {
    /// A whole period has passed since the last sample.
    pub open spec fn due(&self, now: u128) -> bool {
        elapsed(self.last_time, now) >= self.period_secs * 1_000_000_000
    }

    /// What a sample at `now` with the counter at `count` gives.
    pub open spec fn spec_sample(&self, count: u64, now: u128) -> Option<RateSample> {
        if self.due(now) {
            Some(
                RateSample {
                    packets: (count - self.last_count) as u64,
                    nanos: elapsed(self.last_time, now) as u128,
                },
            )
        } else {
            None
        }
    }

    /// The meter after a sample at `now` with the counter at `count`.
    pub open spec fn spec_after(&self, count: u64, now: u128) -> RateMeter {
        if self.due(now) {
            RateMeter { last_count: count, last_time: now, period_secs: self.period_secs }
        } else {
            *self
        }
    }

    /// A meter that starts at `now` with the counter at `count`.
    pub fn new(count: u64, now: u128, period_secs: u64) -> (r: RateMeter)
        ensures
            r == (RateMeter { last_count: count, last_time: now, period_secs }),
    {
        RateMeter { last_count: count, last_time: now, period_secs }
    }

    /// Takes a sample if one is due: what was counted since the last one, and in what time.
    pub fn sample(&mut self, count: u64, now: u128) -> (r: Option<RateSample>)
        requires
            old(self).due(now) ==> count >= old(self).last_count,
        ensures
            r == old(self).spec_sample(count, now),
            *final(self) == old(self).spec_after(count, now),
    {
        let nanos: u128 = if now >= self.last_time {
            now - self.last_time
        } else {
            0
        };
        if nanos >= self.period_secs as u128 * 1_000_000_000 {
            let packets: u64 = count - self.last_count;
            self.last_count = count;
            self.last_time = now;
            Some(RateSample { packets, nanos })
        } else {
            None
        }
    }
}

/// Whether a progress report is due after `done` items, with one report per `every` items.
pub fn report_due(done: u64, every: u64) -> (r: bool)
    requires
        every > 0,
    ensures
        r == (done as int % every as int == 0),
{
    done % every == 0
}

/// Two samples that follow each other neither lose nor repeat a packet, nor any time:
/// together they cover what one sample over both stretches would have covered.
pub proof fn law_samples_add_up(
    start: RateMeter,
    count_a: u64,
    now_a: u128,
    count_b: u64,
    now_b: u128,
)
    requires
        start.last_count <= count_a <= count_b,
        start.last_time <= now_a <= now_b,
        start.due(now_a),
        start.spec_after(count_a, now_a).due(now_b),
    ensures
        ({
            let a = start.spec_sample(count_a, now_a);
            let b = start.spec_after(count_a, now_a).spec_sample(count_b, now_b);
            let whole = start.spec_sample(count_b, now_b);
            &&& a is Some && b is Some && whole is Some
            &&& a->0.packets + b->0.packets == whole->0.packets
            &&& a->0.nanos + b->0.nanos == whole->0.nanos
        }),
{
}

/// A sample is due exactly if the whole period has passed since the last one; it counts what was
/// added since then in the time since then, and the next sample starts where it ends.
pub proof fn law_sample_covers_the_time_since_the_last(meter: RateMeter, count: u64, now: u128)
    requires
        count >= meter.last_count,
        now >= meter.last_time,
    ensures
        meter.spec_sample(count, now) is Some <==> now >= meter.last_time + meter.period_secs
            * 1_000_000_000,
        meter.spec_sample(count, now) matches Some(sample) ==> {
            let after = meter.spec_after(count, now);
            &&& meter.last_count + sample.packets == count
            &&& meter.last_time + sample.nanos == now
            &&& after.last_count == count
            &&& after.last_time == now
            &&& after.period_secs == meter.period_secs
        },
        meter.spec_sample(count, now) is None ==> meter.spec_after(count, now) == meter,
{
}

/// A report is due exactly after every full `every` items.
pub proof fn law_reports_come_at_multiples(done: u64, every: u64, r: bool)
    requires
        every > 0,
        call_ensures(report_due, (done, every), r),
    ensures
        r <==> exists|n: int| #[trigger] (n * every) == done,
{
    vstd::arithmetic::div_mod::lemma_fundamental_div_mod(done as int, every as int);
    if r {
        let n = done as int / every as int;
        assert(n * every == every * n) by (nonlinear_arith);
        assert(n * every == done);
    }
    if exists|n: int| #[trigger] (n * every) == done {
        let n = choose|n: int| #[trigger] (n * every) == done;
        vstd::arithmetic::div_mod::lemma_fundamental_div_mod_converse(
            done as int,
            every as int,
            n,
            0,
        );
    }
}

/// A meter that is asked in time order gives a sample exactly once a full period has passed, of
/// exactly what came in since the last one.
pub proof fn law_meter_samples_once_per_period(
    meter: &mut RateMeter,
    count: u64,
    now: u128,
    r: Option<RateSample>,
)
    requires
        count >= old(meter).last_count,
        now >= old(meter).last_time,
        call_ensures(RateMeter::sample, (meter, count, now), r),
    ensures
        r is Some <==> now - old(meter).last_time >= old(meter).period_secs * 1_000_000_000,
        r matches Some(sample) ==> sample.packets == count - old(meter).last_count && sample.nanos
            == now - old(meter).last_time && final(meter).last_count == count
            && final(meter).last_time == now,
        r is None ==> *final(meter) == *old(meter),
        final(meter).period_secs == old(meter).period_secs,
{
}

} // verus!
