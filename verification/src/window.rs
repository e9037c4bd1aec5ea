//! The mathematics of a sliding window: totals of its packets, its sorted timestamps and the
//! intervals between them.

use vstd::prelude::*;
use vstd::relations::{sorted_by, total_ordering};
use crate::packet::{Direction, PacketSummary};

verus! {

/// Window size K for sliding window behavioral analytics.
pub const WINDOW_SIZE: usize = 128;

/// TCP flag bits as they stand in a packet summary.
pub const FIN: u8 = 0x01;

pub const SYN: u8 = 0x02;

pub const RST: u8 = 0x04;

pub const PSH: u8 = 0x08;

pub const ACK: u8 = 0x10;

pub const URG: u8 = 0x20;

/// A quantity of which a packet contributes some amount to a window's total.
pub enum Measure {
    Bytes,
    SquaredBytes,
    FwdPackets,
    BwdPackets,
    FwdBytes,
    BwdBytes,
    /// Packets that carry any of the given TCP flag bits.
    Flag(u8),
}

/// What one packet contributes to a measure.
pub open spec fn measure(m: Measure, p: PacketSummary) -> int {
    match m {
        Measure::Bytes => p.len as int,
        Measure::SquaredBytes => p.len * p.len,
        Measure::FwdPackets => if p.direction is Forward { 1 } else { 0 },
        Measure::BwdPackets => if p.direction is Backward { 1 } else { 0 },
        Measure::FwdBytes => if p.direction is Forward { p.len as int } else { 0 },
        Measure::BwdBytes => if p.direction is Backward { p.len as int } else { 0 },
        Measure::Flag(bit) => if p.tcp_flags & bit != 0 { 1 } else { 0 },
    }
}

/// The total of a measure over a window.
pub open spec fn total(m: Measure, window: Seq<PacketSummary>) -> int
    decreases window.len(),
{
    if window.len() == 0 {
        0
    } else {
        total(m, window.drop_last()) + measure(m, window.last())
    }
}

/// The window after `packet` arrives: a full window first drops its oldest packet.
pub open spec fn slide(window: Seq<PacketSummary>, packet: PacketSummary) -> Seq<PacketSummary> {
    if window.len() >= WINDOW_SIZE {
        window.drop_first().push(packet)
    } else {
        window.push(packet)
    }
}

pub open spec fn u64_le() -> spec_fn(u64, u64) -> bool {
    |a: u64, b: u64| a <= b
}

/// The timestamps of a window, in order of arrival.
pub open spec fn timestamps(window: Seq<PacketSummary>) -> Seq<u64> {
    Seq::new(window.len(), |i: int| window[i].timestamp_ms)
}

/// The timestamps of a window, in ascending order.
pub open spec fn sorted_timestamps(window: Seq<PacketSummary>) -> Seq<u64> {
    timestamps(window).sort_by(u64_le())
}

/// The gaps between neighbours in an ascending sequence.
pub open spec fn gaps(sorted: Seq<u64>) -> Seq<u64> {
    Seq::new(
        if sorted.len() == 0 { 0 } else { (sorted.len() - 1) as nat },
        |i: int| (sorted[i + 1] - sorted[i]) as u64,
    )
}

/// The inter-arrival times of a window.
pub open spec fn intervals(window: Seq<PacketSummary>) -> Seq<u64> {
    gaps(sorted_timestamps(window))
}

/// The milliseconds between the earliest and the latest packet of a window, and 1 where they
/// coincide or there are fewer than two packets.
pub open spec fn duration_ms(window: Seq<PacketSummary>) -> u64 {
    let sorted = sorted_timestamps(window);
    if sorted.len() > 1 && sorted.last() > sorted[0] {
        (sorted.last() - sorted[0]) as u64
    } else {
        1
    }
}

pub open spec fn sum(values: Seq<u64>) -> int
    decreases values.len(),
{
    if values.len() == 0 {
        0
    } else {
        sum(values.drop_last()) + values.last()
    }
}

pub proof fn lemma_total_push(m: Measure, window: Seq<PacketSummary>, p: PacketSummary)
    ensures
        total(m, window.push(p)) == total(m, window) + measure(m, p),
{
    assert(window.push(p).drop_last() =~= window);
}

pub proof fn lemma_total_drop_first(m: Measure, window: Seq<PacketSummary>)
    requires
        window.len() > 0,
    ensures
        total(m, window) == measure(m, window[0]) + total(m, window.drop_first()),
    decreases window.len(),
{
    if window.len() == 1 {
        assert(window.drop_first() =~= Seq::<PacketSummary>::empty());
        assert(window.drop_last() =~= Seq::<PacketSummary>::empty());
    } else {
        lemma_total_drop_first(m, window.drop_last());
        assert(window.drop_last().drop_first() =~= window.drop_first().drop_last());
    }
}

/// Totals are bounded by the number of packets times the largest contribution.
pub proof fn lemma_total_bounds(m: Measure, window: Seq<PacketSummary>)
    ensures
        0 <= total(m, window),
        m is Bytes || m is FwdBytes || m is BwdBytes ==> total(m, window) <= window.len() * u32::MAX,
        m is FwdPackets || m is BwdPackets || m is Flag ==> total(m, window) <= window.len(),
    decreases window.len(),
{
    if window.len() > 0 {
        lemma_total_bounds(m, window.drop_last());
        let p = window.last();
        assert(p.len * p.len >= 0) by (nonlinear_arith);
        assert((window.len() - 1) * u32::MAX + u32::MAX == window.len() * u32::MAX)
            by (nonlinear_arith);
    }
}

/// Every packet travels in one of the two directions, so the directional totals add up.
pub proof fn lemma_directions_partition(window: Seq<PacketSummary>)
    ensures
        total(Measure::FwdPackets, window) + total(Measure::BwdPackets, window) == window.len(),
        total(Measure::FwdBytes, window) + total(Measure::BwdBytes, window) == total(
            Measure::Bytes,
            window,
        ),
    decreases window.len(),
{
    if window.len() > 0 {
        lemma_directions_partition(window.drop_last());
    }
}

/// The sum of (x_i - x)^2 over a window, multiplied out, is not negative.
proof fn lemma_spread(window: Seq<PacketSummary>, x: int)
    ensures
        total(Measure::SquaredBytes, window) - 2 * x * total(Measure::Bytes, window) + window.len()
            * (x * x) >= 0,
    decreases window.len(),
{
    if window.len() > 0 {
        let rest = window.drop_last();
        lemma_spread(rest, x);
        let y = window.last().len as int;
        let s1 = total(Measure::Bytes, rest);
        let s2 = total(Measure::SquaredBytes, rest);
        let n = rest.len() as int;
        assert((s2 + y * y) - 2 * x * (s1 + y) + (n + 1) * (x * x) == (s2 - 2 * x * s1 + n * (x * x))
            + (y - x) * (y - x)) by (nonlinear_arith);
        assert((y - x) * (y - x) >= 0) by (nonlinear_arith);
    }
}

/// The square of the sum is at most the number of packets times the sum of the squares, so
/// the variance of the packet lengths, taken without rounding, is never negative.
pub proof fn lemma_variance(window: Seq<PacketSummary>)
    ensures
        total(Measure::Bytes, window) * total(Measure::Bytes, window) <= window.len() * total(
            Measure::SquaredBytes,
            window,
        ),
    decreases window.len(),
{
    if window.len() > 0 {
        let rest = window.drop_last();
        lemma_variance(rest);
        let y = window.last().len as int;
        lemma_spread(rest, y);
        let s1 = total(Measure::Bytes, rest);
        let s2 = total(Measure::SquaredBytes, rest);
        let n = rest.len() as int;
        assert((n + 1) * (s2 + y * y) - (s1 + y) * (s1 + y) == (n * s2 - s1 * s1) + (s2 - 2 * y * s1
            + n * (y * y))) by (nonlinear_arith);
    }
}

pub proof fn lemma_u64_le_is_total()
    ensures
        total_ordering(u64_le()),
{
}

/// What sorting does to the timestamps of a window.
pub proof fn lemma_sorted_timestamps(window: Seq<PacketSummary>)
    ensures
        sorted_timestamps(window).len() == window.len(),
        sorted_timestamps(window).to_multiset() == timestamps(window).to_multiset(),
        forall|i: int, j: int|
            0 <= i <= j < window.len() ==> #[trigger] sorted_timestamps(window)[i]
                <= #[trigger] sorted_timestamps(window)[j],
{
    lemma_u64_le_is_total();
    let ts = timestamps(window);
    ts.lemma_sort_by_ensures(u64_le());
    ts.to_multiset_ensures();
    ts.sort_by(u64_le()).to_multiset_ensures();
    let s = ts.sort_by(u64_le());
    assert forall|i: int, j: int| 0 <= i <= j < s.len() implies s[i] <= s[j] by {
        if i < j {
            assert(u64_le()(s[i], s[j]));
        }
    }
}

/// An ascending arrangement of a window's timestamps is the sorted sequence.
pub proof fn lemma_sorted_is_unique(window: Seq<PacketSummary>, s: Seq<u64>)
    requires
        s.to_multiset() == timestamps(window).to_multiset(),
        forall|i: int, j: int| 0 <= i <= j < s.len() ==> s[i] <= s[j],
    ensures
        s == sorted_timestamps(window),
{
    lemma_u64_le_is_total();
    let t = timestamps(window);
    t.lemma_sort_by_ensures(u64_le());
    assert(sorted_by(s, u64_le()));
    vstd::seq_lib::lemma_sorted_unique(s, t.sort_by(u64_le()), u64_le());
}

/// Every timestamp of a window lies between the first and the last of the sorted sequence.
pub proof fn lemma_timestamp_in_range(window: Seq<PacketSummary>, i: int)
    requires
        0 <= i < window.len(),
    ensures
        sorted_timestamps(window)[0] <= window[i].timestamp_ms <= sorted_timestamps(window).last(),
{
    lemma_sorted_timestamps(window);
    let ts = timestamps(window);
    let s = sorted_timestamps(window);
    ts.to_multiset_ensures();
    s.to_multiset_ensures();
    assert(ts[i] == window[i].timestamp_ms);
    assert(ts.contains(window[i].timestamp_ms));
    assert(s.to_multiset().count(window[i].timestamp_ms) > 0);
    assert(s.contains(window[i].timestamp_ms));
}

/// Neighbouring gaps in an ascending sequence add up to the distance between its ends.
pub proof fn lemma_gaps_telescope(sorted: Seq<u64>)
    requires
        sorted.len() > 0,
        forall|i: int, j: int| 0 <= i <= j < sorted.len() ==> sorted[i] <= sorted[j],
    ensures
        sum(gaps(sorted)) == sorted.last() - sorted[0],
    decreases sorted.len(),
{
    if sorted.len() > 1 {
        lemma_gaps_telescope(sorted.drop_last());
        assert(gaps(sorted).drop_last() =~= gaps(sorted.drop_last()));
        assert(gaps(sorted).last() == sorted.last() - sorted[sorted.len() - 2]);
    } else {
        assert(gaps(sorted) =~= Seq::<u64>::empty());
    }
}

/// A total of a measure that is 1 or 0 counts the packets for which it is 1.
pub proof fn lemma_total_counts(
    m: Measure,
    window: Seq<PacketSummary>,
    pred: spec_fn(PacketSummary) -> bool,
)
    requires
        forall|p: PacketSummary| #[trigger]
            measure(m, p) == (if pred(p) {
                1int
            } else {
                0
            }),
    ensures
        total(m, window) == window.filter(pred).len(),
    decreases window.len(),
{
    reveal(Seq::filter);
    if window.len() > 0 {
        lemma_total_counts(m, window.drop_last(), pred);
    }
}

/// A total is what comes out of adding up the contributions one after the other.
pub proof fn lemma_total_adds_up(
    m: Measure,
    window: Seq<PacketSummary>,
    step: spec_fn(int, PacketSummary) -> int,
)
    requires
        forall|acc: int, p: PacketSummary| #[trigger] step(acc, p) == acc + measure(m, p),
    ensures
        total(m, window) == window.fold_left(0, step),
    decreases window.len(),
{
    reveal(Seq::fold_left);
    if window.len() > 0 {
        lemma_total_adds_up(m, window.drop_last(), step);
    }
}

/// A packet counts under every flag that it carries, whatever other flags it carries with it,
/// and under no other.
pub proof fn law_flags_count_independently(p: PacketSummary, f: u8, g: u8)
    requires
        f != 0,
        g != 0,
    ensures
        p.tcp_flags == f | g ==> measure(Measure::Flag(f), p) == 1 && measure(Measure::Flag(g), p)
            == 1,
        p.tcp_flags & f == 0 ==> measure(Measure::Flag(f), p) == 0,
        p.tcp_flags & f == f ==> measure(Measure::Flag(f), p) == 1,
{
    assert((f | g) & f == f && (f | g) & g == g) by (bit_vector);
}

/// A window that takes a packet ends with that packet and otherwise keeps what it had, but for
/// the oldest packet once it holds 128 of them.
pub proof fn law_slide_keeps_the_latest(window: Seq<PacketSummary>, packet: PacketSummary)
    ensures
        slide(window, packet).last() == packet,
        window.len() < 128 ==> slide(window, packet).drop_last() == window,
        window.len() >= 128 ==> slide(window, packet).drop_last() == window.skip(1),
{
    assert(slide(window, packet).drop_last() =~= if window.len() >= 128 {
        window.skip(1)
    } else {
        window
    });
}

/// The duration of a window is the largest distance in time between two of its packets, and
/// one millisecond where no two packets differ in time.
pub proof fn law_duration_is_largest_distance(window: Seq<PacketSummary>)
    ensures
        forall|i: int, j: int|
            0 <= i < window.len() && 0 <= j < window.len() ==> (#[trigger] window[i]).timestamp_ms
                - (#[trigger] window[j]).timestamp_ms <= duration_ms(window),
        (exists|i: int, j: int|
            0 <= i < window.len() && 0 <= j < window.len() && (#[trigger] window[i]).timestamp_ms
                != (#[trigger] window[j]).timestamp_ms) ==> exists|i: int, j: int|
            0 <= i < window.len() && 0 <= j < window.len() && (#[trigger] window[i]).timestamp_ms
                - (#[trigger] window[j]).timestamp_ms == duration_ms(window),
        (forall|i: int, j: int|
            0 <= i < window.len() && 0 <= j < window.len() ==> (#[trigger] window[i]).timestamp_ms
                == (#[trigger] window[j]).timestamp_ms) ==> duration_ms(window) == 1,
{
    let s = sorted_timestamps(window);
    lemma_sorted_timestamps(window);
    assert forall|i: int| 0 <= i < window.len() implies s[0] <= (
    #[trigger] window[i]).timestamp_ms <= s.last() by {
        lemma_timestamp_in_range(window, i);
    }
    if window.len() > 0 {
        let ts = timestamps(window);
        ts.to_multiset_ensures();
        s.to_multiset_ensures();
        assert(s.contains(s[0]) && s.contains(s.last()));
        assert(ts.to_multiset().count(s[0]) > 0 && ts.to_multiset().count(s.last()) > 0);
        let lo = choose|i: int| 0 <= i < ts.len() && ts[i] == s[0];
        let hi = choose|i: int| 0 <= i < ts.len() && ts[i] == s.last();
        assert(ts.contains(s[0]) && ts.contains(s.last()));
        assert(window[lo].timestamp_ms == s[0] && window[hi].timestamp_ms == s.last());
    }
}

/// The inter-arrival times of a window are the steps from each timestamp to the next once the
/// timestamps are put in ascending order.
pub proof fn law_intervals_are_steps_in_time_order(window: Seq<PacketSummary>)
    ensures
        exists|s: Seq<u64>|
            {
                &&& #[trigger] s.len() == window.len()
                &&& s.to_multiset() == window.map_values(
                    |p: PacketSummary| p.timestamp_ms,
                ).to_multiset()
                &&& forall|i: int, j: int| 0 <= i <= j < s.len() ==> s[i] <= s[j]
                &&& intervals(window).len() == (if window.len() == 0 {
                    0
                } else {
                    window.len() - 1
                })
                &&& forall|i: int|
                    0 <= i < window.len() - 1 ==> #[trigger] intervals(window)[i] == s[i + 1] - s[i]
            },
{
    let s = sorted_timestamps(window);
    lemma_sorted_timestamps(window);
    assert(window.map_values(|p: PacketSummary| p.timestamp_ms) =~= timestamps(window));
    assert(s.len() == window.len());
}

} // verus!
