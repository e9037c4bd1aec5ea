//! The registry of blocked clients: who was found anomalous, and when.
//!
//! Instants are nanoseconds on a clock that never runs backwards.

use vstd::prelude::*;
use dashmap::DashMap;
use crate::addr::{AddrId, IpAddr};

verus! {

/// `dashmap::DashMap`, a sharded hash map.
#[verifier::external_type_specification]
#[verifier::external_body]
#[verifier::reject_recursive_types(K)]
#[verifier::reject_recursive_types(V)]
#[verifier::reject_recursive_types(S)]
pub struct ExDashMap<K, V, S>(dashmap::DashMap<K, V, S>);

/// What a map of blocked addresses holds: the instant at which each was blocked.
pub uninterp spec fn held(map: DashMap<AddrId, u128>) -> Map<AddrId, u128>;

/// The number of entries up to which a map can always grow by one more.
pub open spec fn growable(entries: int) -> bool {
    entries * 512 <= isize::MAX
}

/// `DashMap::new`: the new map is empty.
#[verifier::external_body]
fn map_new() -> (r: DashMap<AddrId, u128>)
    ensures
        held(r).is_empty(),
{
    DashMap::new()
}

/// `DashMap::get`, with the instant copied out, so that no lock is held afterwards.
#[verifier::external_body]
fn map_get(map: &DashMap<AddrId, u128>, id: &AddrId) -> (r: Option<u128>)
    ensures
        r == (if held(*map).contains_key(*id) {
            Some(held(*map)[*id])
        } else {
            None
        }),
{
    map.get(id).map(|entry| *entry.value())
}

/// `DashMap::insert`, with the value that was replaced dropped. The map is borrowed
/// exclusively, so no other thread changes it meanwhile. It may have to grow, which panics
/// where so many buckets cannot be addressed.
#[verifier::external_body]
fn map_insert(map: &mut DashMap<AddrId, u128>, id: AddrId, at: u128)
    requires
        growable(held(*old(map)).len() as int),
    ensures
        held(*final(map)) == held(*old(map)).insert(id, at),
{
    map.insert(id, at);
}

/// `DashMap::remove`, with the entry that was removed dropped. The map is borrowed
/// exclusively, so no other thread changes it meanwhile.
#[verifier::external_body]
fn map_remove(map: &mut DashMap<AddrId, u128>, id: &AddrId)
    ensures
        held(*final(map)) == held(*old(map)).remove(*id),
{
    map.remove(id);
}

/// `DashMap::contains_key`.
#[verifier::external_body]
fn map_contains(map: &DashMap<AddrId, u128>, id: &AddrId) -> (r: bool)
    ensures
        r == held(*map).contains_key(*id),
{
    map.contains_key(id)
}

/// `DashMap::len`: the number of keys.
#[verifier::external_body]
fn map_len(map: &DashMap<AddrId, u128>) -> (r: usize)
    ensures
        r == held(*map).len(),
{
    map.len()
}

/// `DashMap::iter`, with the entries copied out: every entry once, in an order that is not
/// specified.
#[verifier::external_body]
fn map_entries(map: &DashMap<AddrId, u128>) -> (r: Vec<(AddrId, u128)>)
    ensures
        r@.len() == held(*map).len(),
        forall|i: int|
            0 <= i < r@.len() ==> held(*map).contains_key((#[trigger] r@[i]).0) && held(*map)[r@[i].0]
                == r@[i].1,
        forall|i: int, j: int|
            0 <= i < j < r@.len() ==> (#[trigger] r@[i]).0 != (#[trigger] r@[j]).0,
        forall|id: AddrId| #[trigger]
            held(*map).contains_key(id) ==> exists|i: int| 0 <= i < r@.len() && r@[i].0 == id,
{
    map.iter().map(|entry| (*entry.key(), *entry.value())).collect()
}

/// The time from `from` to `to`; 0 if `to` is the earlier one.
pub open spec fn elapsed(from: u128, to: u128) -> int {
    if to >= from {
        to - from
    } else {
        0
    }
}

/// A block of `ttl_secs` seconds that began at `blocked_at` is still in force at `now`.
pub open spec fn in_force(blocked_at: u128, now: u128, ttl_secs: u64) -> bool {
    elapsed(blocked_at, now) < ttl_secs * 1_000_000_000
}

/// The whole seconds for which a block still has to last: nothing once they are used up.
pub open spec fn remaining(blocked_at: u128, now: u128, ttl_secs: u64) -> int {
    let passed = elapsed(blocked_at, now) / 1_000_000_000;
    if passed >= ttl_secs {
        0
    } else {
        ttl_secs - passed
    }
}

/// What came of one classified flow.
#[derive(Debug, Clone, Copy, PartialEq, Eq, Structural)]
pub enum Verdict {
    /// The client is anomalous: it is blocked from now on, and an alert is due.
    Blocked,
    /// The client was blocked and has returned to normal: its block is lifted.
    Unblocked,
    /// The client is normal and was not blocked.
    Unchanged,
}

/// A blocked client with the seconds for which its block still has to last.
#[derive(Debug, Clone, Copy, PartialEq, Eq, Structural)]
pub struct BlockedClient {
    pub ip: IpAddr,
    pub remaining_seconds: u64,
}

/// The clients that were found anomalous, with the instant of the last time.
pub struct Blocklist {
    entries: DashMap<AddrId, u128>,
}

/// The address that a valid pair of integers stands for.
spec fn addr_of(id: AddrId) -> IpAddr {
    if id.0 == 4 {
        IpAddr::V4(id.1 as u32)
    } else {
        IpAddr::V6(id.1)
    }
}

spec fn valid_id(id: AddrId) -> bool {
    addr_of(id).spec_id() == id
}

impl View for Blocklist {
    type V = Map<IpAddr, u128>;

    closed spec fn view(&self) -> Map<IpAddr, u128> {
        Map::new(
            |ip: IpAddr| held(self.entries).contains_key(ip.spec_id()),
            |ip: IpAddr| held(self.entries)[ip.spec_id()],
        )
    }
}

impl Blocklist {
    /// Every entry stands for an address.
    pub closed spec fn wf(&self) -> bool {
        &&& held(self.entries).dom().finite()
        &&& forall|id: AddrId| #[trigger] held(self.entries).contains_key(id) ==> valid_id(id)
    }

    /// There are as many entries as blocked addresses.
    proof fn lemma_sizes(&self)
        requires
            self.wf(),
        ensures
            self@.dom().finite(),
            self@.len() == held(self.entries).len(),
    {
        let ids = held(self.entries).dom();
        let f = |id: AddrId| addr_of(id);
        assert(ids.map(f) =~= self@.dom()) by {
            assert forall|ip: IpAddr| self@.dom().contains(ip) implies ids.map(f).contains(ip) by {
                assert(ids.contains(ip.spec_id()));
                assert(f(ip.spec_id()) == ip);
            }
            assert forall|ip: IpAddr| ids.map(f).contains(ip) implies self@.dom().contains(ip) by {
                let id = choose|id: AddrId| ids.contains(id) && f(id) == ip;
                assert(held(self.entries).contains_key(id));
            }
        }
        assert forall|a: AddrId, b: AddrId|
            ids.contains(a) && ids.contains(b) && #[trigger] f(a) == #[trigger] f(b) implies a == b by {
            assert(held(self.entries).contains_key(a) && held(self.entries).contains_key(b));
        }
        vstd::set_lib::lemma_map_size(ids, self@.dom(), f);
    }

    /// A list without entries.
    pub fn new() -> (r: Blocklist)
        ensures
            r.wf(),
            r@ == Map::<IpAddr, u128>::empty(),
    {
        let r = Blocklist { entries: map_new() };
        assert(r@ =~= Map::<IpAddr, u128>::empty());
        r
    }

    /// Records the classification of a client's flow. An anomalous client is blocked from
    /// `now` on; a client that has returned to normal is unblocked.
    pub fn observe(&mut self, client: IpAddr, is_anomaly: bool, now: u128) -> (r: Verdict)
        requires
            old(self).wf(),
            is_anomaly ==> growable(old(self)@.len() as int),
        ensures
            final(self).wf(),
            is_anomaly ==> r is Blocked && final(self)@ == old(self)@.insert(client, now),
            !is_anomaly ==> final(self)@ == old(self)@.remove(client),
            !is_anomaly ==> r == (if old(self)@.contains_key(client) {
                Verdict::Unblocked
            } else {
                Verdict::Unchanged
            }),
    {
        proof {
            self.lemma_sizes();
        }
        let id = client.id();
        if is_anomaly {
            map_insert(&mut self.entries, id, now);
            assert(self@ =~= old(self)@.insert(client, now));
            Verdict::Blocked
        } else if map_contains(&self.entries, &id) {
            map_remove(&mut self.entries, &id);
            assert(self@ =~= old(self)@.remove(client));
            Verdict::Unblocked
        } else {
            assert(self@ =~= old(self)@.remove(client));
            Verdict::Unchanged
        }
    }

    /// Whether a client is blocked at `now`, for blocks of `ttl_secs` seconds. A block that has
    /// run out is dropped from the list.
    pub fn is_blocked(&mut self, client: IpAddr, now: u128, ttl_secs: u64) -> (r: bool)
        requires
            old(self).wf(),
        ensures
            final(self).wf(),
            r == (old(self)@.contains_key(client) && in_force(old(self)@[client], now, ttl_secs)),
            r ==> final(self)@ == old(self)@,
            !r ==> final(self)@ == old(self)@.remove(client),
    {
        let id = client.id();
        match map_get(&self.entries, &id) {
            Some(blocked_at) => {
                let passed: u128 = if now >= blocked_at {
                    now - blocked_at
                } else {
                    0
                };
                if passed < ttl_secs as u128 * 1_000_000_000 {
                    true
                } else {
                    // TTL expired: remove from blocklist lazily
                    map_remove(&mut self.entries, &id);
                    assert(self@ =~= old(self)@.remove(client));
                    false
                }
            },
            None => {
                assert(self@ =~= old(self)@.remove(client));
                false
            },
        }
    }

    /// The clients on the list, with the seconds for which their blocks still have to last, in
    /// no particular order.
    pub fn clients(&self, now: u128, ttl_secs: u64) -> (r: Vec<BlockedClient>)
        requires
            self.wf(),
        ensures
            r@.len() == self@.len(),
            forall|i: int|
                0 <= i < r@.len() ==> self@.contains_key((#[trigger] r@[i]).ip)
                    && r@[i].remaining_seconds == remaining(self@[r@[i].ip], now, ttl_secs),
            forall|i: int, j: int|
                0 <= i < j < r@.len() ==> (#[trigger] r@[i]).ip != (#[trigger] r@[j]).ip,
            forall|ip: IpAddr| #[trigger]
                self@.contains_key(ip) ==> exists|i: int| 0 <= i < r@.len() && r@[i].ip == ip,
    {
        proof {
            self.lemma_sizes();
        }
        let entries = map_entries(&self.entries);
        let mut r: Vec<BlockedClient> = Vec::new();
        let mut i: usize = 0;
        while i < entries.len()
            invariant
                self.wf(),
                i <= entries@.len(),
                r@.len() == i,
                forall|k: int|
                    0 <= k < entries@.len() ==> held(self.entries).contains_key(
                        (#[trigger] entries@[k]).0,
                    ) && held(self.entries)[entries@[k].0] == entries@[k].1,
                forall|k: int|
                    0 <= k < i ==> (#[trigger] r@[k]).ip.spec_id() == entries@[k].0
                        && r@[k].remaining_seconds == remaining(entries@[k].1, now, ttl_secs),
            decreases entries@.len() - i,
        {
            let (id, blocked_at) = entries[i];
            assert(held(self.entries).contains_key(entries@[i as int].0));
            let passed: u128 = if now >= blocked_at {
                now - blocked_at
            } else {
                0
            };
            let passed_secs: u128 = passed / 1_000_000_000;
            let remaining_seconds: u64 = if passed_secs >= ttl_secs as u128 {
                0
            } else {
                ttl_secs - passed_secs as u64
            };
            match IpAddr::from_id(id) {
                Some(ip) => {
                    r.push(BlockedClient { ip, remaining_seconds });
                },
                None => {
                    assert(addr_of(id).spec_id() == id);
                    assert(false);
                },
            }
            i = i + 1;
        }
        proof {
            assert forall|i: int, j: int| 0 <= i < j < r@.len() implies (#[trigger] r@[i]).ip != (
            #[trigger] r@[j]).ip by {
                assert(entries@[i].0 != entries@[j].0);
            }
            assert forall|i: int| 0 <= i < r@.len() implies self@.contains_key((#[trigger] r@[i]).ip)
                && r@[i].remaining_seconds == remaining(self@[r@[i].ip], now, ttl_secs) by {
                assert(held(self.entries).contains_key(entries@[i].0));
            }
            assert forall|ip: IpAddr| #[trigger] self@.contains_key(ip) implies exists|i: int|
                0 <= i < r@.len() && r@[i].ip == ip by {
                assert(held(self.entries).contains_key(ip.spec_id()));
                let i = choose|i: int| 0 <= i < entries@.len() && entries@[i].0 == ip.spec_id();
                assert(r@[i].ip.spec_id() == ip.spec_id());
                assert(r@[i].ip == ip);
            }
        }
        r
    }

    /// The number of clients on the list.
    pub fn len(&self) -> (r: usize)
        requires
            self.wf(),
        ensures
            r == self@.len(),
    {
        proof {
            self.lemma_sizes();
        }
        map_len(&self.entries)
    }

    /// Whether the list can take another client.
    pub fn has_room(&self) -> (r: bool)
        requires
            self.wf(),
        ensures
            r == growable(self@.len() as int),
    {
        proof {
            self.lemma_sizes();
        }
        self.len() <= isize::MAX as usize / 512
    }
}

/// A client that is found anomalous is blocked for the time to live, counted from the last
/// time that it was, and no longer.
pub proof fn law_block_lasts_for_ttl(
    before: Map<IpAddr, u128>,
    client: IpAddr,
    blocked_at: u128,
    now: u128,
    ttl_secs: u64,
)
    requires
        now >= blocked_at,
    ensures
        ({
            let after = before.insert(client, blocked_at);
            after.contains_key(client) && in_force(after[client], now, ttl_secs)
        }) <==> now < blocked_at + ttl_secs * 1_000_000_000,
{
}

/// A block that was in force at some instant was in force at every earlier one.
pub proof fn law_blocks_only_run_out(blocked_at: u128, earlier: u128, later: u128, ttl_secs: u64)
    requires
        earlier <= later,
        in_force(blocked_at, later, ttl_secs),
    ensures
        in_force(blocked_at, earlier, ttl_secs),
{
}

/// A client that is listed with seconds to go is blocked, and a block that has run out is
/// listed with none.
pub proof fn law_remaining_seconds_agree(blocked_at: u128, now: u128, ttl_secs: u64)
    ensures
        in_force(blocked_at, now, ttl_secs) <==> remaining(blocked_at, now, ttl_secs) > 0,
        0 <= remaining(blocked_at, now, ttl_secs) <= ttl_secs,
{
}

/// What happens to one client leaves every other client as it is.
pub proof fn law_clients_are_independent(
    before: Map<IpAddr, u128>,
    client: IpAddr,
    other: IpAddr,
    now: u128,
)
    requires
        other != client,
    ensures
        before.insert(client, now).contains_key(other) == before.contains_key(other),
        before.remove(client).contains_key(other) == before.contains_key(other),
        before.contains_key(other) ==> before.insert(client, now)[other] == before[other],
        before.contains_key(other) ==> before.remove(client)[other] == before[other],
{
}

/// The time between two instants is their difference, and nothing where the second is the
/// earlier one.
pub proof fn law_time_never_runs_backwards(from: u128, to: u128)
    ensures
        to >= from ==> from + elapsed(from, to) == to,
        to < from ==> elapsed(from, to) == 0,
{
}

/// The remaining seconds are the time to live less the full seconds that have passed: they
/// start at the time to live and lose one with every second.
pub proof fn law_remaining_seconds_count_down(blocked_at: u128, now: u128, ttl_secs: u64)
    ensures
        now <= blocked_at ==> remaining(blocked_at, now, ttl_secs) == ttl_secs,
        now >= blocked_at && remaining(blocked_at, now, ttl_secs) > 0 ==> {
            let passed = ttl_secs - remaining(blocked_at, now, ttl_secs);
            passed * 1_000_000_000 <= now - blocked_at < (passed + 1) * 1_000_000_000
        },
        remaining(blocked_at, now, ttl_secs) == 0 <==> elapsed(blocked_at, now) >= ttl_secs
            * 1_000_000_000,
{
}

/// A client that was found anomalous at one instant is blocked at a later one exactly if less
/// than the time to live has passed; every other client is blocked as it was before.
pub proof fn law_block_follows_the_observation(
    list: &mut Blocklist,
    then: &mut Blocklist,
    client: IpAddr,
    asked: IpAddr,
    found_at: u128,
    now: u128,
    ttl_secs: u64,
    verdict: Verdict,
    blocked: bool,
)
    requires
        call_ensures(Blocklist::observe, (list, client, true, found_at), verdict),
        *old(then) == *final(list),
        call_ensures(Blocklist::is_blocked, (then, asked, now, ttl_secs), blocked),
        now >= found_at,
    ensures
        verdict is Blocked,
        asked == client ==> (blocked <==> now - found_at < ttl_secs * 1_000_000_000),
        asked != client ==> (blocked <==> old(list)@.contains_key(asked) && in_force(
            old(list)@[asked],
            now,
            ttl_secs,
        )),
        blocked ==> final(then)@ == old(then)@,
        !blocked ==> !final(then)@.contains_key(asked),
{
}

/// A client that has returned to normal is off the list, told to be unblocked exactly if it was
/// on it, and all others stay as they are.
pub proof fn law_normal_behaviour_takes_the_client_off(
    list: &mut Blocklist,
    client: IpAddr,
    other: IpAddr,
    now: u128,
    verdict: Verdict,
)
    requires
        call_ensures(Blocklist::observe, (list, client, false, now), verdict),
        other != client,
    ensures
        !final(list)@.contains_key(client),
        verdict is Unblocked <==> old(list)@.contains_key(client),
        verdict is Unchanged <==> !old(list)@.contains_key(client),
        final(list)@.contains_key(other) == old(list)@.contains_key(other),
        old(list)@.contains_key(other) ==> final(list)@[other] == old(list)@[other],
{
}

/// The list of clients names everyone who is on the blocklist once, with the seconds that are
/// left, and nobody else.
pub proof fn law_listing_is_complete(
    list: Blocklist,
    now: u128,
    ttl_secs: u64,
    r: Vec<BlockedClient>,
    len: usize,
    ip: IpAddr,
)
    requires
        list.wf(),
        call_ensures(Blocklist::clients, (&list, now, ttl_secs), r),
        call_ensures(Blocklist::len, (&list,), len),
    ensures
        r@.len() == len,
        list@.contains_key(ip) <==> exists|i: int| 0 <= i < r@.len() && (#[trigger] r@[i]).ip == ip,
        forall|i: int, j: int|
            0 <= i < j < r@.len() ==> (#[trigger] r@[i]).ip != (#[trigger] r@[j]).ip,
        forall|i: int|
            0 <= i < r@.len() && (#[trigger] r@[i]).remaining_seconds > 0 ==> {
                let at = list@[r@[i].ip];
                let passed = ttl_secs - r@[i].remaining_seconds;
                now >= at ==> passed * 1_000_000_000 <= now - at < (passed + 1) * 1_000_000_000
            },
{
    if list@.contains_key(ip) {
        let i = choose|i: int| 0 <= i < r@.len() && r@[i].ip == ip;
        assert(r@[i].ip == ip);
    }
}

} // verus!
