//! Points in wall-clock time, as seconds and nanoseconds since the Unix epoch.

use vstd::prelude::*;
use vstd::arithmetic::power::{lemma_pow0, lemma_pow_increases, pow};

verus! {

/// The units of time per second that a resolution code of a capture file stands for: a power
/// of ten, or with the highest bit set a power of two.
pub open spec fn units_per_second(resolution: u8) -> int {
    if resolution < 128 {
        pow(10, resolution as nat)
    } else {
        pow(2, (resolution - 128) as nat)
    }
}

/// A wall-clock reading.
#[derive(Debug, Clone, Copy, PartialEq, Eq, Structural)]
pub enum Timestamp {
    /// The reading lies before the Unix epoch.
    BeforeEpoch,
    /// The reading lies `secs` seconds and `nanos` nanoseconds after the Unix epoch.
    SinceEpoch { secs: u64, nanos: u32 },
}

impl Timestamp {
    /// Whole milliseconds since the epoch, as a mathematical integer; 0 before the epoch.
    pub open spec fn exact_millis(self) -> nat {
        match self {
            Timestamp::BeforeEpoch => 0,
            Timestamp::SinceEpoch { secs, nanos } => (secs * 1000 + nanos / 1_000_000) as nat,
        }
    }

    /// The milliseconds that a packet summary records: the low 64 bits of the exact count.
    pub open spec fn spec_millis(self) -> u64 {
        (self.exact_millis() % 0x1_0000_0000_0000_0000) as u64
    }

    /// Whole milliseconds since the epoch, reduced to 64 bits; 0 before the epoch.
    pub fn millis(&self) -> (r: u64)
        ensures
            r == self.spec_millis(),
    {
        match *self {
            Timestamp::BeforeEpoch => 0,
            Timestamp::SinceEpoch { secs, nanos } => {
                let total: u128 = secs as u128 * 1000 + (nanos / 1_000_000) as u128;
                (total % 0x1_0000_0000_0000_0000) as u64
            },
        }
    }

    /// Whole seconds since the epoch as a database integer; 0 before the epoch. Counts above
    /// the largest signed integer come out in two's complement.
    pub fn unix_seconds(&self) -> (r: i64)
        ensures
            self is BeforeEpoch ==> r == 0,
            self matches Timestamp::SinceEpoch { secs, nanos } ==> r == (if secs <= i64::MAX {
                secs as int
            } else {
                secs - 0x1_0000_0000_0000_0000
            }),
    {
        match *self {
            Timestamp::BeforeEpoch => 0,
            Timestamp::SinceEpoch { secs, .. } => {
                if secs <= i64::MAX as u64 {
                    secs as i64
                } else {
                    let below: u64 = u64::MAX - secs;
                    -1 - (below as i64)
                }
            },
        }
    }

    /// The reading `secs` seconds and `nanos` nanoseconds after the epoch, with whole seconds
    /// in `nanos` carried over.
    pub fn since_epoch(secs: u64, nanos: u32) -> (r: Timestamp)
        requires
            secs + nanos / 1_000_000_000 <= i64::MAX,
        ensures
            r == (Timestamp::SinceEpoch {
                secs: (secs + nanos / 1_000_000_000) as u64,
                nanos: nanos % 1_000_000_000,
            }),
    {
        Timestamp::SinceEpoch {
            secs: secs + (nanos / 1_000_000_000) as u64,
            nanos: nanos % 1_000_000_000,
        }
    }

    /// The reading of a capture header, which counts seconds and microseconds.
    pub fn from_timeval(tv_sec: u64, tv_usec: u32) -> (r: Timestamp)
        requires
            tv_usec * 1000 <= u32::MAX,
            tv_sec + tv_usec / 1_000_000 <= i64::MAX,
        ensures
            r == (Timestamp::SinceEpoch {
                secs: (tv_sec + tv_usec / 1_000_000) as u64,
                nanos: ((tv_usec % 1_000_000) * 1000) as u32,
            }),
    {
        Timestamp::since_epoch(tv_sec, tv_usec * 1000)
    }

    /// The reading of a capture block, which counts units of time of the given resolution
    /// since the epoch. Fractions of a nanosecond are dropped.
    pub fn from_units(units: u64, resolution: u8) -> (r: Timestamp)
        ensures
            ({
                let rate = units_per_second(resolution);
                &&& r matches Timestamp::SinceEpoch { secs, nanos }
                &&& secs == units as int / rate
                &&& nanos == ((units as int % rate) * 1_000_000_000) / rate
            }),
    {
        let (base, exponent): (u128, u8) = if resolution < 128 {
            (10, resolution)
        } else {
            (2, resolution - 128)
        };
        let ghost full = pow(base as int, exponent as nat);
        let mut rate: u128 = 1;
        let mut i: u8 = 0;
        proof {
            lemma_pow0(base as int);
        }
        while i < exponent
            invariant
                i <= exponent,
                base == 10 || base == 2,
                full == pow(base as int, exponent as nat),
                full == units_per_second(resolution),
                rate == pow(base as int, i as nat),
                1 <= rate < 0x100_0000_0000_0000_0000_0000_0000_0000,
            decreases exponent - i,
        {
            if rate >= 0x1_0000_0000_0000_0000_0000_0000 {
                // So fine that even all units together make less than a nanosecond
                proof {
                    lemma_pow_increases(base as nat, i as nat, exponent as nat);
                    lemma_below_one_nanosecond(units as int, full);
                }
                return Timestamp::SinceEpoch { secs: 0, nanos: 0 };
            }
            proof {
                assert(pow(base as int, (i + 1) as nat) == base * pow(base as int, i as nat)) by {
                    reveal(pow);
                }
                assert(base * rate == rate * base) by (nonlinear_arith);
            }
            rate = rate * base;
            i = i + 1;
        }
        let whole: u128 = units as u128 / rate;
        let rest: u128 = units as u128 % rate;
        proof {
            lemma_split(units as int, rate as int);
        }
        Timestamp::SinceEpoch { secs: whole as u64, nanos: (rest * 1_000_000_000 / rate) as u32 }
    }
}

/// Units of which more go on a second than there are nanoseconds in all of them.
proof fn lemma_below_one_nanosecond(units: int, rate: int)
    requires
        0 <= units <= u64::MAX,
        rate >= 0x1_0000_0000_0000_0000_0000_0000,
    ensures
        units / rate == 0,
        ((units % rate) * 1_000_000_000) / rate == 0,
{
    vstd::arithmetic::div_mod::lemma_small_mod(units as nat, rate as nat);
    vstd::arithmetic::div_mod::lemma_basic_div(units, rate);
    vstd::arithmetic::div_mod::lemma_basic_div(units * 1_000_000_000, rate);
}

/// Whole seconds fit in 64 bits, and the rest is less than a second in nanoseconds.
proof fn lemma_split(units: int, rate: int)
    requires
        0 <= units <= u64::MAX,
        rate >= 1,
    ensures
        0 <= units / rate <= units,
        0 <= units % rate <= units,
        0 <= ((units % rate) * 1_000_000_000) / rate < 1_000_000_000,
{
    let rest = units % rate;
    assert(0 <= units / rate <= units && 0 <= rest < rate && rest <= units) by (nonlinear_arith)
        requires
            0 <= units,
            rate >= 1,
            rest == units % rate,
    ;
    assert(0 <= (rest * 1_000_000_000) / rate < 1_000_000_000) by (nonlinear_arith)
        requires
            0 <= rest < rate,
    ;
}

/// A capture header's time, read back in milliseconds, is its seconds and microseconds in
/// milliseconds, rounded down.
pub proof fn law_timeval_millis(tv_sec: u64, tv_usec: u32)
    requires
        tv_usec * 1000 <= u32::MAX,
        tv_sec + tv_usec / 1_000_000 <= i64::MAX,
    ensures
        (Timestamp::SinceEpoch {
            secs: (tv_sec + tv_usec / 1_000_000) as u64,
            nanos: ((tv_usec % 1_000_000) * 1000) as u32,
        }).exact_millis() == tv_sec * 1000 + tv_usec / 1000,
{
}

/// A count of microseconds, the usual resolution, reads back in milliseconds as its thousandth
/// part, rounded down.
pub proof fn law_microseconds_read_back(units: u64, reading: Timestamp)
    requires
        reading matches Timestamp::SinceEpoch { secs, nanos } && {
            let rate = units_per_second(6);
            &&& secs == units as int / rate
            &&& nanos == ((units as int % rate) * 1_000_000_000) / rate
        },
    ensures
        reading.exact_millis() == units / 1000,
{
    assert(units_per_second(6) == 1_000_000) by {
        reveal_with_fuel(pow, 7);
    }
}

/// A reading counts the milliseconds that have passed in full since the epoch, none before it,
/// and a packet records the low 64 bits of that count: all of it as long as it fits.
pub proof fn law_millis_are_full_milliseconds(reading: Timestamp)
    ensures
        reading is BeforeEpoch ==> reading.exact_millis() == 0,
        reading matches Timestamp::SinceEpoch { secs, nanos } ==> {
            let elapsed = secs * 1_000_000_000 + nanos;
            reading.exact_millis() * 1_000_000 <= elapsed < (reading.exact_millis() + 1) * 1_000_000
        },
        reading.exact_millis() <= 0xffff_ffff_ffff_ffff ==> reading.spec_millis()
            == reading.exact_millis(),
        (reading.exact_millis() - reading.spec_millis()) % 0x1_0000_0000_0000_0000 == 0,
{
}

/// One step of the resolution code makes units of time ten times as fine, or twice as fine for
/// codes with the highest bit set; code 0 of either kind stands for whole seconds.
pub proof fn law_resolution_steps(resolution: u8)
    ensures
        units_per_second(0) == 1,
        units_per_second(128) == 1,
        resolution < 127 ==> units_per_second((resolution + 1) as u8) == 10 * units_per_second(
            resolution,
        ),
        128 <= resolution < 255 ==> units_per_second((resolution + 1) as u8) == 2
            * units_per_second(resolution),
{
    reveal(pow);
}

/// The time of a capture header, read back in milliseconds, is what its seconds and microseconds
/// make, rounded down.
pub proof fn law_capture_header_time_reads_back(tv_sec: u64, tv_usec: u32, r: Timestamp)
    requires
        tv_usec * 1000 <= u32::MAX,
        tv_sec + tv_usec / 1_000_000 <= i64::MAX,
        call_ensures(Timestamp::from_timeval, (tv_sec, tv_usec), r),
    ensures
        r.exact_millis() == tv_sec * 1000 + tv_usec / 1000,
        r matches Timestamp::SinceEpoch { secs, nanos } && secs * 1_000_000_000 + nanos == tv_sec
            * 1_000_000_000 + tv_usec * 1000 && nanos < 1_000_000_000,
{
}

/// Carrying whole seconds over keeps the time.
pub proof fn law_carrying_keeps_the_time(secs: u64, nanos: u32, r: Timestamp)
    requires
        secs + nanos / 1_000_000_000 <= i64::MAX,
        call_ensures(Timestamp::since_epoch, (secs, nanos), r),
    ensures
        r matches Timestamp::SinceEpoch { secs: s, nanos: n } && s * 1_000_000_000 + n == secs
            * 1_000_000_000 + nanos && n < 1_000_000_000,
{
}

/// The time of a capture block lies less than one nanosecond below what its units make.
pub proof fn law_block_time_is_exact_to_the_nanosecond(units: u64, resolution: u8, r: Timestamp)
    requires
        call_ensures(Timestamp::from_units, (units, resolution), r),
    ensures
        r matches Timestamp::SinceEpoch { secs, nanos } && {
            let rate = units_per_second(resolution);
            &&& (secs * 1_000_000_000 + nanos) * rate <= units * 1_000_000_000
            &&& units * 1_000_000_000 < (secs * 1_000_000_000 + nanos + 1) * rate
        },
{
    let rate = units_per_second(resolution);
    assert(rate > 0) by {
        if resolution < 128 {
            vstd::arithmetic::power::lemma_pow_positive(10, resolution as nat);
        } else {
            vstd::arithmetic::power::lemma_pow_positive(2, (resolution - 128) as nat);
        }
    }
    let q = units as int / rate;
    let rest = units as int % rate;
    let n = (rest * 1_000_000_000) / rate;
    vstd::arithmetic::div_mod::lemma_fundamental_div_mod(units as int, rate);
    vstd::arithmetic::div_mod::lemma_fundamental_div_mod(rest * 1_000_000_000, rate);
    vstd::arithmetic::div_mod::lemma_mod_bound(rest * 1_000_000_000, rate);
    assert((q * 1_000_000_000 + n) * rate == 1_000_000_000 * (rate * q) + rate * n)
        by (nonlinear_arith);
    assert((q * 1_000_000_000 + n + 1) * rate == 1_000_000_000 * (rate * q) + rate * n + rate)
        by (nonlinear_arith);
}

/// The seconds of a reading go into the database as they are, and readings before the epoch as
/// 0.
pub proof fn law_unix_seconds(reading: Timestamp, r: i64)
    requires
        call_ensures(Timestamp::unix_seconds, (&reading,), r),
    ensures
        reading is BeforeEpoch ==> r == 0,
        reading matches Timestamp::SinceEpoch { secs, nanos } ==> (secs - r)
            % 0x1_0000_0000_0000_0000 == 0,
{
}

} // verus!
