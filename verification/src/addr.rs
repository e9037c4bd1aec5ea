//! Network addresses as integers, with the total order in which flow endpoints are sorted.

use vstd::prelude::*;

verus! {

/// An address as a pair of integers: the protocol version (4 or 6) and the address value.
pub type AddrId = (u8, u128);

/// An IPv4 or IPv6 address, held as the integer that its octets spell in network order.
#[derive(Debug, Clone, Copy, PartialEq, Eq, Hash, Structural)]
pub enum IpAddr {
    V4(u32),
    V6(u128),
}

/// The integer that a sequence of octets spells, most significant octet first.
pub open spec fn be_value(octets: Seq<u8>) -> nat
    decreases octets.len(),
{
    if octets.len() == 0 {
        0
    } else {
        be_value(octets.drop_last()) * 256 + octets.last() as nat
    }
}

impl IpAddr {
    /// `self` sorts strictly before `other`: every IPv4 address precedes every IPv6 address,
    /// and addresses of one version go by their value.
    pub open spec fn before(self, other: IpAddr) -> bool {
        match (self, other) {
            (IpAddr::V4(a), IpAddr::V4(b)) => a < b,
            (IpAddr::V4(_), IpAddr::V6(_)) => true,
            (IpAddr::V6(_), IpAddr::V4(_)) => false,
            (IpAddr::V6(a), IpAddr::V6(b)) => a < b,
        }
    }

    pub open spec fn spec_id(self) -> AddrId {
        match self {
            IpAddr::V4(a) => (4u8, a as u128),
            IpAddr::V6(a) => (6u8, a),
        }
    }

    /// Whether `self` sorts strictly before `other`.
    pub fn is_before(&self, other: &IpAddr) -> (r: bool)
        ensures
            r == self.before(*other),
    {
        match (*self, *other) {
            (IpAddr::V4(a), IpAddr::V4(b)) => a < b,
            (IpAddr::V4(_), IpAddr::V6(_)) => true,
            (IpAddr::V6(_), IpAddr::V4(_)) => false,
            (IpAddr::V6(a), IpAddr::V6(b)) => a < b,
        }
    }

    /// The address as a pair of integers; different addresses have different pairs.
    pub fn id(&self) -> (r: AddrId)
        ensures
            r == self.spec_id(),
    {
        match *self {
            IpAddr::V4(a) => (4u8, a as u128),
            IpAddr::V6(a) => (6u8, a),
        }
    }

    /// The address that a pair of integers stands for, if it stands for one.
    pub fn from_id(id: AddrId) -> (r: Option<IpAddr>)
        ensures
            r matches Some(addr) ==> addr.spec_id() == id,
            r is None ==> forall|addr: IpAddr| addr.spec_id() != id,
    {
        if id.0 == 4 && id.1 <= u32::MAX as u128 {
            Some(IpAddr::V4(id.1 as u32))
        } else if id.0 == 6 {
            Some(IpAddr::V6(id.1))
        } else {
            None
        }
    }

    /// The IPv4 address with the given octets.
    pub fn from_v4_octets(octets: [u8; 4]) -> (r: IpAddr)
        ensures
            r is V4,
            r->V4_0 == be_value(octets@),
    {
        let mut value: u32 = 0;
        let mut i: usize = 0;
        while i < 4
            invariant
                i <= 4,
                value == be_value(octets@.take(i as int)),
                i == 0 ==> value == 0,
                i == 1 ==> value < 0x100,
                i == 2 ==> value < 0x1_0000,
                i == 3 ==> value < 0x100_0000,
            decreases 4 - i,
        {
            proof {
                assert(octets@.take(i + 1).drop_last() =~= octets@.take(i as int));
            }
            value = value * 256 + octets[i] as u32;
            i = i + 1;
        }
        proof {
            assert(octets@.take(4) =~= octets@);
        }
        IpAddr::V4(value)
    }

    /// The IPv6 address with the given octets.
    pub fn from_v6_octets(octets: [u8; 16]) -> (r: IpAddr)
        ensures
            r is V6,
            r->V6_0 == be_value(octets@),
    {
        let mut value: u128 = 0;
        proof {
            vstd::arithmetic::power::lemma_pow0(256);
        }
        let mut i: usize = 0;
        while i < 16
            invariant
                i <= 16,
                value == be_value(octets@.take(i as int)),
                value < vstd::arithmetic::power::pow(256, i as nat),
            decreases 16 - i,
        {
            proof {
                assert(octets@.take(i + 1).drop_last() =~= octets@.take(i as int));
                lemma_pow256(i as nat);
            }
            value = value * 256 + octets[i] as u128;
            i = i + 1;
        }
        proof {
            assert(octets@.take(16) =~= octets@);
        }
        IpAddr::V6(value)
    }
}

/// A value below 256^i, shifted by one octet, stays below 256^(i+1), which for i < 16 fits
/// in 128 bits.
proof fn lemma_pow256(i: nat)
    requires
        i < 16,
    ensures
        vstd::arithmetic::power::pow(256, (i + 1) as nat) == 256 * vstd::arithmetic::power::pow(256, i),
        256 * vstd::arithmetic::power::pow(256, i) <= 0x1_0000_0000_0000_0000_0000_0000_0000_0000,
{
    assert(vstd::arithmetic::power::pow(256, 16)
        == 0x1_0000_0000_0000_0000_0000_0000_0000_0000) by {
        reveal_with_fuel(vstd::arithmetic::power::pow, 17);
    }
    assert(vstd::arithmetic::power::pow(256, (i + 1) as nat) == 256
        * vstd::arithmetic::power::pow(256, i)) by {
        reveal(vstd::arithmetic::power::pow);
    }
    vstd::arithmetic::power::lemma_pow_increases(256, (i + 1) as nat, 16);
}

/// Of two addresses exactly one of three things holds: the first is before the second, the
/// second before the first, or they are equal.
pub proof fn law_address_order_is_total(a: IpAddr, b: IpAddr)
    ensures
        a.before(b) || b.before(a) || a == b,
        !(a.before(b) && b.before(a)),
        !a.before(a),
{
}

/// The address order is transitive.
pub proof fn law_address_order_is_transitive(a: IpAddr, b: IpAddr, c: IpAddr)
    requires
        a.before(b),
        b.before(c),
    ensures
        a.before(c),
{
}

/// Two addresses with the same integer pair are the same address.
pub proof fn law_address_id_is_injective(a: IpAddr, b: IpAddr)
    requires
        a.spec_id() == b.spec_id(),
    ensures
        a == b,
{
}

/// Addresses of one version are ordered by value, and every IPv4 address comes before every
/// IPv6 address.
pub proof fn law_address_order_goes_by_value(a: u32, b: u32, c: u128, d: u128)
    ensures
        IpAddr::V4(a).before(IpAddr::V4(b)) <==> a < b,
        IpAddr::V6(c).before(IpAddr::V6(d)) <==> c < d,
        IpAddr::V4(a).before(IpAddr::V6(c)),
        !IpAddr::V6(c).before(IpAddr::V4(a)),
{
}

/// The pair of an address holds the protocol version and the value of the address.
pub proof fn law_address_id_holds_version_and_value(a: u32, b: u128)
    ensures
        IpAddr::V4(a).spec_id() == (4u8, a as u128),
        IpAddr::V6(b).spec_id() == (6u8, b),
{
}

/// Every octet can be read back from the value that the octets spell, the first octet from its
/// highest digit in base 256, and the value has no further digits.
pub proof fn law_octets_are_digits_of_value(octets: Seq<u8>, i: int)
    requires
        0 <= i < octets.len(),
    ensures
        (be_value(octets) as int / vstd::arithmetic::power::pow(256, (octets.len() - 1 - i) as nat))
            % 256 == octets[i],
        be_value(octets) < vstd::arithmetic::power::pow(256, octets.len()),
    decreases octets.len(),
{
    lemma_value_bound(octets);
    let rest = octets.drop_last();
    let high = be_value(rest) as int;
    let low = octets.last() as int;
    vstd::arithmetic::div_mod::lemma_fundamental_div_mod_converse(high * 256 + low, 256, high, low);
    if i == octets.len() - 1 {
        vstd::arithmetic::power::lemma_pow0(256);
    } else {
        law_octets_are_digits_of_value(rest, i);
        let e = (rest.len() - 1 - i) as nat;
        vstd::arithmetic::power::lemma_pow_positive(256, e);
        assert(vstd::arithmetic::power::pow(256, (e + 1) as nat) == 256
            * vstd::arithmetic::power::pow(256, e)) by {
            reveal(vstd::arithmetic::power::pow);
        }
        vstd::arithmetic::div_mod::lemma_div_denominator(
            high * 256 + low,
            256,
            vstd::arithmetic::power::pow(256, e),
        );
        assert(octets.len() - 1 - i == e + 1);
    }
}

proof fn lemma_value_bound(octets: Seq<u8>)
    ensures
        be_value(octets) < vstd::arithmetic::power::pow(256, octets.len()),
    decreases octets.len(),
{
    reveal(vstd::arithmetic::power::pow);
    if octets.len() > 0 {
        lemma_value_bound(octets.drop_last());
    }
}

/// An IPv4 address has its four octets in network order.
pub proof fn law_v4_octets_spell_value(octets: [u8; 4], r: IpAddr)
    requires
        call_ensures(IpAddr::from_v4_octets, (octets,), r),
    ensures
        r matches IpAddr::V4(value) && value == octets@[0] * 0x100_0000 + octets@[1] * 0x1_0000
            + octets@[2] * 0x100 + octets@[3],
{
    reveal_with_fuel(be_value, 5);
    let s = octets@;
    assert(s.drop_last() =~= seq![s[0], s[1], s[2]]);
    assert(s.drop_last().drop_last() =~= seq![s[0], s[1]]);
    assert(s.drop_last().drop_last().drop_last() =~= seq![s[0]]);
}

} // verus!
