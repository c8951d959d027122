//! Classification of peer addresses: which IPv4 addresses are real LAN
//! addresses (as opposed to proxy or VPN ranges), and which announced
//! address to use for a peer.

use vstd::prelude::*;

verus! {

/// An IP address as its octets.
#[derive(Debug, Clone, Copy, PartialEq, Eq, Structural)]
pub enum IpAddress {
    V4(u8, u8, u8, u8),
    V6,
}

/// An IPv4 network: address and prefix length.
#[derive(Debug, Clone, Copy, PartialEq, Eq, Structural)]
pub struct Subnet {
    pub a: u8,
    pub b: u8,
    pub c: u8,
    pub d: u8,
    pub prefix_len: u8,
}

/// Whether an address lies in a private LAN range (10/8, 172.16/12,
/// 192.168/16, link-local 169.254/16) and not in a proxy or VPN range
/// (198.18/15, 100.64/10).
pub open spec fn real_lan(ip: IpAddress) -> bool {
    match ip {
        IpAddress::V4(a, b, _, _) => {
            if a == 198 && (b == 18 || b == 19) {
                false
            } else if a == 100 && 64 <= b < 128 {
                false
            } else {
                a == 10 || (a == 172 && 16 <= b <= 31) || (a == 192 && b == 168) || (a == 169 && b
                    == 254)
            }
        },
        IpAddress::V6 => false,
    }
}

/// Whether an IPv4 address is a real private LAN address rather than a
/// VPN or proxy interface address.
pub fn is_real_lan_ip(ip: &IpAddress) -> (r: bool)
    ensures
        r == real_lan(*ip),
{
    match ip {
        IpAddress::V4(a, b, _, _) => {
            let (a, b) = (*a, *b);
            if a == 198 && (b == 18 || b == 19) {
                return false;
            }
            if a == 100 && (b >= 64 && b < 128) {
                return false;
            }
            if a == 10 {
                return true;
            }
            if a == 172 && b >= 16 && b <= 31 {
                return true;
            }
            if a == 192 && b == 168 {
                return true;
            }
            a == 169 && b == 254
        },
        IpAddress::V6 => false,
    }
}

/// Addresses in the proxy range 198.18.0.0/15 and the carrier-grade NAT
/// range 100.64.0.0/10 are never real LAN addresses; addresses in 10/8,
/// 172.16/12, 192.168/16 and 169.254/16 always are.
pub proof fn lemma_lan_ranges(b: u8, c: u8, d: u8)
    ensures
        !real_lan(IpAddress::V4(198, (18 + b % 2) as u8, c, d)),
        64 <= b < 128 ==> !real_lan(IpAddress::V4(100, b, c, d)),
        real_lan(IpAddress::V4(10, b, c, d)),
        16 <= b <= 31 ==> real_lan(IpAddress::V4(172, b, c, d)),
        real_lan(IpAddress::V4(192, 168, c, d)),
        real_lan(IpAddress::V4(169, 254, c, d)),
{
}

/// The address as one 32-bit number.
pub open spec fn ipv4_bits(a: u8, b: u8, c: u8, d: u8) -> int {
    a * 16777216 + b * 65536 + c * 256 + d
}

/// Whether two 32-bit addresses agree on their first `prefix` bits.
pub open spec fn same_prefix(x: int, y: int, prefix: int) -> bool {
    prefix <= 0 || x / vstd::arithmetic::power2::pow2((32 - prefix) as nat) as int == y
        / vstd::arithmetic::power2::pow2((32 - prefix) as nat) as int
}

/// Whether an IPv4 address lies in the subnet.
pub open spec fn in_subnet(ip: IpAddress, net: Subnet) -> bool {
    match ip {
        IpAddress::V4(a, b, c, d) => net.prefix_len <= 32 && same_prefix(
            ipv4_bits(a, b, c, d),
            ipv4_bits(net.a, net.b, net.c, net.d),
            net.prefix_len as int,
        ),
        IpAddress::V6 => false,
    }
}

/// Whether the address lies in any of the subnets.
pub open spec fn in_any_subnet(ip: IpAddress, nets: Seq<Subnet>) -> bool {
    exists|k: int| 0 <= k < nets.len() && in_subnet(ip, #[trigger] nets[k])
}

fn bits_of(a: u8, b: u8, c: u8, d: u8) -> (r: u64)
    ensures
        r == ipv4_bits(a, b, c, d),
{
    a as u64 * 16777216 + b as u64 * 65536 + c as u64 * 256 + d as u64
}

/// Whether an IPv4 address lies in the subnet.
pub fn is_in_subnet(ip: &IpAddress, net: &Subnet) -> (r: bool)
    ensures
        r == in_subnet(*ip, *net),
{
    match ip {
        IpAddress::V4(a, b, c, d) => {
            if net.prefix_len > 32 {
                return false;
            }
            if net.prefix_len == 0 {
                return true;
            }
            let x = bits_of(*a, *b, *c, *d);
            let y = bits_of(net.a, net.b, net.c, net.d);
            let shift = (32 - net.prefix_len) as u64;
            let m = pow2_u64(shift);
            x / m == y / m
        },
        IpAddress::V6 => false,
    }
}

fn pow2_u64(e: u64) -> (r: u64)
    requires
        e < 32,
    ensures
        r == vstd::arithmetic::power2::pow2(e as nat),
        r > 0,
{
    let mut r: u64 = 1;
    let mut i: u64 = 0;
    proof {
        vstd::arithmetic::power2::lemma2_to64();
    }
    while i < e
        invariant
            i <= e,
            e < 32,
            r == vstd::arithmetic::power2::pow2(i as nat),
            0 < r <= 0x1_0000_0000,
        decreases e - i,
    {
        proof {
            vstd::arithmetic::power2::lemma_pow2_unfold((i + 1) as nat);
            vstd::arithmetic::power2::lemma_pow2_strictly_increases(i as nat, 31);
            vstd::arithmetic::power2::lemma2_to64();
        }
        r = r * 2;
        i = i + 1;
    }
    r
}

/// Whether the address lies in any of the subnets.
pub fn is_same_subnet(ip: &IpAddress, nets: &Vec<Subnet>) -> (r: bool)
    ensures
        r == in_any_subnet(*ip, nets@),
{
    let mut k: usize = 0;
    while k < nets.len()
        invariant
            k <= nets@.len(),
            forall|j: int| 0 <= j < k ==> !in_subnet(*ip, #[trigger] nets@[j]),
        decreases nets@.len() - k,
    {
        if is_in_subnet(ip, &nets[k]) {
            return true;
        }
        k = k + 1;
    }
    false
}

/// Whether an address is a usable IPv4 peer address (not loopback).
pub open spec fn usable_v4(ip: IpAddress) -> bool {
    ip matches IpAddress::V4(a, _, _, _) && a != 127
}

/// The usable IPv4 addresses of `addrs`, in order.
pub open spec fn usable_only(addrs: Seq<IpAddress>) -> Seq<IpAddress>
    decreases addrs.len(),
{
    if addrs.len() == 0 {
        addrs
    } else if usable_v4(addrs.last()) {
        usable_only(addrs.drop_last()).push(addrs.last())
    } else {
        usable_only(addrs.drop_last())
    }
}

/// Index of the first address of `addrs` in one of the subnets, or
/// `addrs.len()`.
pub open spec fn first_in_subnets(addrs: Seq<IpAddress>, ours: Seq<Subnet>) -> int
    decreases addrs.len(),
{
    if addrs.len() == 0 {
        0
    } else if in_any_subnet(addrs[0], ours) {
        0
    } else {
        1 + first_in_subnets(addrs.drop_first(), ours)
    }
}

/// Index of the first real LAN address of `addrs`, or `addrs.len()`.
pub open spec fn first_real_lan(addrs: Seq<IpAddress>) -> int
    decreases addrs.len(),
{
    if addrs.len() == 0 {
        0
    } else if real_lan(addrs[0]) {
        0
    } else {
        1 + first_real_lan(addrs.drop_first())
    }
}

/// The address to use for a peer among those it announced: among usable
/// IPv4 addresses, the first in one of our subnets, else the first real LAN
/// address, else the first of them.
pub open spec fn preferred_address(addrs: Seq<IpAddress>, ours: Seq<Subnet>) -> Option<IpAddress> {
    let usable = usable_only(addrs);
    let i = first_in_subnets(usable, ours);
    let j = first_real_lan(usable);
    if i < usable.len() {
        Some(usable[i])
    } else if j < usable.len() {
        Some(usable[j])
    } else if usable.len() > 0 {
        Some(usable[0])
    } else {
        None
    }
}

proof fn lemma_first_in_subnets_is(addrs: Seq<IpAddress>, ours: Seq<Subnet>, i: int)
    requires
        0 <= i <= addrs.len(),
        i < addrs.len() ==> in_any_subnet(addrs[i], ours),
        forall|k: int| 0 <= k < i ==> !in_any_subnet(#[trigger] addrs[k], ours),
    ensures
        first_in_subnets(addrs, ours) == i,
    decreases addrs.len(),
{
    if addrs.len() > 0 && i > 0 {
        assert(!in_any_subnet(addrs[0], ours));
        assert forall|k: int| 0 <= k < i - 1 implies !in_any_subnet(#[trigger] addrs.drop_first()[k], ours) by {
            assert(addrs.drop_first()[k] == addrs[k + 1]);
        }
        lemma_first_in_subnets_is(addrs.drop_first(), ours, i - 1);
    }
}

proof fn lemma_first_real_lan_is(addrs: Seq<IpAddress>, i: int)
    requires
        0 <= i <= addrs.len(),
        i < addrs.len() ==> real_lan(addrs[i]),
        forall|k: int| 0 <= k < i ==> !real_lan(#[trigger] addrs[k]),
    ensures
        first_real_lan(addrs) == i,
    decreases addrs.len(),
{
    if addrs.len() > 0 && i > 0 {
        assert(!real_lan(addrs[0]));
        assert forall|k: int| 0 <= k < i - 1 implies !real_lan(#[trigger] addrs.drop_first()[k]) by {
            assert(addrs.drop_first()[k] == addrs[k + 1]);
        }
        lemma_first_real_lan_is(addrs.drop_first(), i - 1);
    }
}

/// Keeps the usable IPv4 addresses, in order.
fn usable_addresses(addrs: &Vec<IpAddress>) -> (r: Vec<IpAddress>)
    ensures
        r@ == usable_only(addrs@),
{
    let mut out: Vec<IpAddress> = Vec::new();
    let mut k: usize = 0;
    while k < addrs.len()
        invariant
            k <= addrs@.len(),
            out@ == usable_only(addrs@.subrange(0, k as int)),
        decreases addrs@.len() - k,
    {
        let ip = addrs[k];
        proof {
            assert(addrs@.subrange(0, k + 1).drop_last() =~= addrs@.subrange(0, k as int));
            assert(addrs@.subrange(0, k + 1).last() == ip);
        }
        let keep = match ip {
            IpAddress::V4(a, _, _, _) => a != 127,
            IpAddress::V6 => false,
        };
        if keep {
            out.push(ip);
        }
        k = k + 1;
    }
    assert(addrs@.subrange(0, addrs@.len() as int) =~= addrs@);
    out
}

/// Picks the address to use for a peer among those it announced; see
/// `preferred_address`.
pub fn choose_peer_address(addrs: &Vec<IpAddress>, ours: &Vec<Subnet>) -> (r: Option<IpAddress>)
    ensures
        r == preferred_address(addrs@, ours@),
{
    let usable = usable_addresses(addrs);
    let mut k: usize = 0;
    while k < usable.len()
        invariant
            usable@ == usable_only(addrs@),
            k <= usable@.len(),
            forall|j: int| 0 <= j < k ==> !in_any_subnet(#[trigger] usable@[j], ours@),
        decreases usable@.len() - k,
    {
        if is_same_subnet(&usable[k], ours) {
            proof {
                lemma_first_in_subnets_is(usable@, ours@, k as int);
            }
            let chosen = usable[k];
            assert(chosen == usable@[k as int]);
            return Some(chosen);
        }
        k = k + 1;
    }
    proof {
        lemma_first_in_subnets_is(usable@, ours@, usable@.len() as int);
    }
    let mut k: usize = 0;
    while k < usable.len()
        invariant
            usable@ == usable_only(addrs@),
            k <= usable@.len(),
            first_in_subnets(usable@, ours@) == usable@.len(),
            forall|j: int| 0 <= j < k ==> !real_lan(#[trigger] usable@[j]),
        decreases usable@.len() - k,
    {
        if is_real_lan_ip(&usable[k]) {
            proof {
                lemma_first_real_lan_is(usable@, k as int);
            }
            let chosen = usable[k];
            assert(chosen == usable@[k as int]);
            return Some(chosen);
        }
        k = k + 1;
    }
    proof {
        lemma_first_real_lan_is(usable@, usable@.len() as int);
    }
    if usable.len() > 0 {
        Some(usable[0])
    } else {
        None
    }
}

} // verus!
