//! Which network addresses images may be fetched from.

use vstd::prelude::*;
use vstd::string::StringExecFns;
use vstd::arithmetic::power2::{pow2, lemma2_to64};

verus! {

/// An IP address: four octets, or eight 16-bit segments.
#[derive(Debug, Clone, Copy, PartialEq, Eq)]
pub enum IpAddress {
    V4([u8; 4]),
    V6([u16; 8]),
}

/// 10.0.0.0/8, 172.16.0.0/12 and 192.168.0.0/16.
pub open spec fn v4_is_private(o: Seq<u8>) -> bool {
    ||| o[0] == 10
    ||| o[0] == 172 && 16 <= o[1] <= 31
    ||| o[0] == 192 && o[1] == 168
}

/// 127.0.0.0/8.
pub open spec fn v4_is_loopback(o: Seq<u8>) -> bool {
    o[0] == 127
}

/// 169.254.0.0/16.
pub open spec fn v4_is_link_local(o: Seq<u8>) -> bool {
    o[0] == 169 && o[1] == 254
}

/// 255.255.255.255.
pub open spec fn v4_is_broadcast(o: Seq<u8>) -> bool {
    o[0] == 255 && o[1] == 255 && o[2] == 255 && o[3] == 255
}

/// 192.0.2.0/24, 198.51.100.0/24 and 203.0.113.0/24.
pub open spec fn v4_is_documentation(o: Seq<u8>) -> bool {
    ||| o[0] == 192 && o[1] == 0 && o[2] == 2
    ||| o[0] == 198 && o[1] == 51 && o[2] == 100
    ||| o[0] == 203 && o[1] == 0 && o[2] == 113
}

/// 0.0.0.0.
pub open spec fn v4_is_unspecified(o: Seq<u8>) -> bool {
    o[0] == 0 && o[1] == 0 && o[2] == 0 && o[3] == 0
}

/// An IPv4 address outside every private, loopback, link-local, broadcast,
/// documentation and unspecified range, outside 0.0.0.0/8, the shared address space
/// 100.64.0.0/10, the protocol assignments 192.0.0.0/24 and 240.0.0.0/4 and above.
pub open spec fn v4_is_public(o: Seq<u8>) -> bool {
    !(v4_is_private(o) || v4_is_loopback(o) || v4_is_link_local(o) || v4_is_broadcast(o)
        || v4_is_documentation(o) || v4_is_unspecified(o) || o[0] == 0 || (o[0] == 100 && 64
        <= o[1] <= 127) || (o[0] == 192 && o[1] == 0 && o[2] == 0) || o[0] >= 240)
}

/// ::1.
pub open spec fn v6_is_loopback(s: Seq<u16>) -> bool {
    s[0] == 0 && s[1] == 0 && s[2] == 0 && s[3] == 0 && s[4] == 0 && s[5] == 0 && s[6] == 0
        && s[7] == 1
}

/// ::.
pub open spec fn v6_is_unspecified(s: Seq<u16>) -> bool {
    s[0] == 0 && s[1] == 0 && s[2] == 0 && s[3] == 0 && s[4] == 0 && s[5] == 0 && s[6] == 0
        && s[7] == 0
}

/// ::ffff:a.b.c.d, an IPv4 address mapped into IPv6.
pub open spec fn v6_is_v4_mapped(s: Seq<u16>) -> bool {
    s[0] == 0 && s[1] == 0 && s[2] == 0 && s[3] == 0 && s[4] == 0 && s[5] == 0xffff
}

/// The IPv4 address inside an IPv4-mapped IPv6 address.
pub open spec fn v6_mapped_octets(s: Seq<u16>) -> Seq<u8> {
    seq![(s[6] / 256) as u8, (s[6] % 256) as u8, (s[7] / 256) as u8, (s[7] % 256) as u8]
}

/// An IPv6 address that is neither loopback nor unspecified, whose mapped IPv4
/// address (if it is one) is public, and that lies outside the link-local unicast
/// range fe80::/10 and the unique local range fc00::/7.
pub open spec fn v6_is_public(s: Seq<u16>) -> bool {
    if v6_is_loopback(s) || v6_is_unspecified(s) {
        false
    } else if v6_is_v4_mapped(s) {
        v4_is_public(v6_mapped_octets(s))
    } else {
        !(0xfe80 <= s[0] <= 0xfebf) && !(0xfc00 <= s[0] <= 0xfdff)
    }
}

/// Whether an address is one that images may be fetched from.
pub open spec fn spec_is_public_ip(ip: IpAddress) -> bool {
    match ip {
        IpAddress::V4(o) => v4_is_public(o@),
        IpAddress::V6(s) => v6_is_public(s@),
    }
}

fn v4_octets_public(o: [u8; 4]) -> (b: bool)
    ensures
        b == v4_is_public(o@),
{
    let private = o[0] == 10 || (o[0] == 172 && o[1] >= 16 && o[1] <= 31) || (o[0] == 192 && o[1]
        == 168);
    let loopback = o[0] == 127;
    let link_local = o[0] == 169 && o[1] == 254;
    let broadcast = o[0] == 255 && o[1] == 255 && o[2] == 255 && o[3] == 255;
    let documentation = (o[0] == 192 && o[1] == 0 && o[2] == 2) || (o[0] == 198 && o[1] == 51
        && o[2] == 100) || (o[0] == 203 && o[1] == 0 && o[2] == 113);
    let unspecified = o[0] == 0 && o[1] == 0 && o[2] == 0 && o[3] == 0;
    let o1 = o[1];
    let shared = (o1 & 0xc0) == 64;
    assert(shared <==> 64 <= o1 <= 127) by (bit_vector)
        requires
            shared == ((o1 & 0xc0) == 64),
    ;
    !(private || loopback || link_local || broadcast || documentation || unspecified || o[0] == 0
        || (o[0] == 100 && shared) || (o[0] == 192 && o[1] == 0 && o[2] == 0) || o[0] >= 240)
}

/// Whether an address is one that images may be fetched from; an IPv4-mapped IPv6
/// address is judged as the IPv4 address it carries.
pub fn is_public_ip(ip: &IpAddress) -> (b: bool)
    ensures
        b == spec_is_public_ip(*ip),
{
    match ip {
        IpAddress::V4(o) => v4_octets_public(*o),
        IpAddress::V6(s) => {
            let loopback = s[0] == 0 && s[1] == 0 && s[2] == 0 && s[3] == 0 && s[4] == 0 && s[5]
                == 0 && s[6] == 0 && s[7] == 1;
            let unspecified = s[0] == 0 && s[1] == 0 && s[2] == 0 && s[3] == 0 && s[4] == 0 && s[5]
                == 0 && s[6] == 0 && s[7] == 0;
            if loopback || unspecified {
                return false;
            }
            if s[0] == 0 && s[1] == 0 && s[2] == 0 && s[3] == 0 && s[4] == 0 && s[5] == 0xffff {
                let s6 = s[6];
                let s7 = s[7];
                let mapped: [u8; 4] = [(s6 >> 8) as u8, (s6 & 0xff) as u8, (s7 >> 8) as u8, (s7 & 0xff) as u8];
                assert((s6 >> 8) as u8 == (s6 / 256) as u8 && (s6 & 0xff) as u8 == (s6 % 256) as u8)
                    by (bit_vector);
                assert((s7 >> 8) as u8 == (s7 / 256) as u8 && (s7 & 0xff) as u8 == (s7 % 256) as u8)
                    by (bit_vector);
                assert(mapped@ =~= v6_mapped_octets(s@));
                return v4_octets_public(mapped);
            }
            let s0 = s[0];
            let link_local = (s0 & 0xffc0) == 0xfe80;
            let unique_local = (s0 & 0xfe00) == 0xfc00;
            assert(link_local <==> 0xfe80 <= s0 <= 0xfebf) by (bit_vector)
                requires
                    link_local == ((s0 & 0xffc0) == 0xfe80),
            ;
            assert(unique_local <==> 0xfc00 <= s0 <= 0xfdff) by (bit_vector)
                requires
                    unique_local == ((s0 & 0xfe00) == 0xfc00),
            ;
            !link_local && !unique_local
        },
    }
}

/// The number that an IPv4 address stands for: its octets read most significant first.
pub open spec fn v4_number(o: Seq<u8>) -> int {
    o[0] * 16777216 + o[1] * 65536 + o[2] * 256 + o[3]
}

/// Whether the IPv4 address `o` lies in the block `a.b.c.d/prefix`: the `2^(32 - prefix)`
/// addresses from `a.b.c.d` on.
pub open spec fn in_v4_block(o: Seq<u8>, a: int, b: int, c: int, d: int, prefix: nat) -> bool {
    let start = a * 16777216 + b * 65536 + c * 256 + d;
    start <= v4_number(o) < start + pow2((32 - prefix) as nat)
}

/// An IPv4 address may be fetched from exactly when it lies in none of the blocks
/// 0.0.0.0/8, 10.0.0.0/8, 100.64.0.0/10, 127.0.0.0/8, 169.254.0.0/16, 172.16.0.0/12,
/// 192.0.0.0/24, 192.0.2.0/24, 192.168.0.0/16, 198.51.100.0/24, 203.0.113.0/24 and
/// 240.0.0.0/4 (which holds 255.255.255.255).
pub proof fn lemma_v4_public_blocks(o: [u8; 4])
    ensures
        spec_is_public_ip(IpAddress::V4(o)) <==> !{
            ||| in_v4_block(o@, 0, 0, 0, 0, 8)
            ||| in_v4_block(o@, 10, 0, 0, 0, 8)
            ||| in_v4_block(o@, 100, 64, 0, 0, 10)
            ||| in_v4_block(o@, 127, 0, 0, 0, 8)
            ||| in_v4_block(o@, 169, 254, 0, 0, 16)
            ||| in_v4_block(o@, 172, 16, 0, 0, 12)
            ||| in_v4_block(o@, 192, 0, 0, 0, 24)
            ||| in_v4_block(o@, 192, 0, 2, 0, 24)
            ||| in_v4_block(o@, 192, 168, 0, 0, 16)
            ||| in_v4_block(o@, 198, 51, 100, 0, 24)
            ||| in_v4_block(o@, 203, 0, 113, 0, 24)
            ||| in_v4_block(o@, 240, 0, 0, 0, 4)
        },
{
    lemma2_to64();
    let v = o@;
    assert(in_v4_block(v, 0, 0, 0, 0, 8) <==> v[0] == 0);
    assert(in_v4_block(v, 10, 0, 0, 0, 8) <==> v[0] == 10);
    assert(in_v4_block(v, 100, 64, 0, 0, 10) <==> (v[0] == 100 && 64 <= v[1] <= 127));
    assert(in_v4_block(v, 127, 0, 0, 0, 8) <==> v[0] == 127);
    assert(in_v4_block(v, 169, 254, 0, 0, 16) <==> (v[0] == 169 && v[1] == 254));
    assert(in_v4_block(v, 172, 16, 0, 0, 12) <==> (v[0] == 172 && 16 <= v[1] <= 31));
    assert(in_v4_block(v, 192, 0, 0, 0, 24) <==> (v[0] == 192 && v[1] == 0 && v[2] == 0));
    assert(in_v4_block(v, 192, 0, 2, 0, 24) <==> (v[0] == 192 && v[1] == 0 && v[2] == 2));
    assert(in_v4_block(v, 192, 168, 0, 0, 16) <==> (v[0] == 192 && v[1] == 168));
    assert(in_v4_block(v, 198, 51, 100, 0, 24) <==> (v[0] == 198 && v[1] == 51 && v[2] == 100));
    assert(in_v4_block(v, 203, 0, 113, 0, 24) <==> (v[0] == 203 && v[1] == 0 && v[2] == 113));
    assert(in_v4_block(v, 240, 0, 0, 0, 4) <==> v[0] >= 240);
}

/// An IPv6 address that is not loopback, unspecified or IPv4-mapped may be fetched from
/// exactly when its first 10 bits are not those of fe80::/10 and its first 7 bits not
/// those of fc00::/7.
pub proof fn lemma_v6_public_prefixes(s: [u16; 8])
    requires
        !v6_is_loopback(s@),
        !v6_is_unspecified(s@),
        !v6_is_v4_mapped(s@),
    ensures
        spec_is_public_ip(IpAddress::V6(s)) <==> (s[0] / 64 != 0xfe80u16 / 64 && s[0] / 512 != 0xfc00u16 / 512),
{
}

/// An IPv4-mapped IPv6 address `::ffff:a.b.c.d` gets the verdict of the IPv4 address
/// `a.b.c.d` it carries: the seventh segment holds `a` in its high byte and `b` in its
/// low byte, the eighth `c` and `d`.
pub proof fn lemma_v4_mapped_judged_as_v4(s: [u16; 8], o: [u8; 4])
    requires
        s[0] == 0,
        s[1] == 0,
        s[2] == 0,
        s[3] == 0,
        s[4] == 0,
        s[5] == 0xffff,
        s[6] == o[0] * 256 + o[1],
        s[7] == o[2] * 256 + o[3],
    ensures
        spec_is_public_ip(IpAddress::V6(s)) == spec_is_public_ip(IpAddress::V4(o)),
{
    let m = v6_mapped_octets(s@);
    assert(m[0] == o[0] && m[1] == o[1] && m[2] == o[2] && m[3] == o[3]);
    assert(!v6_is_loopback(s@) && !v6_is_unspecified(s@) && v6_is_v4_mapped(s@));
    assert(m =~= o@);
}

/// Whether at least one address was found and all of them are public.
pub fn addresses_are_public(addrs: &Vec<IpAddress>) -> (b: bool)
    ensures
        b == (addrs@.len() > 0 && forall|i: int| 0 <= i < addrs@.len() ==> #[trigger] spec_is_public_ip(addrs@[i])),
{
    let mut i: usize = 0;
    while i < addrs.len()
        invariant
            i <= addrs@.len(),
            forall|k: int| 0 <= k < i ==> #[trigger] spec_is_public_ip(addrs@[k]),
        decreases addrs@.len() - i,
    {
        if !is_public_ip(&addrs[i]) {
            return false;
        }
        i = i + 1;
    }
    addrs.len() > 0
}

/// `https`
pub open spec fn https_word() -> Seq<char> {
    seq!['h', 't', 't', 'p', 's']
}

/// The host and port to resolve for a URL that images may be fetched from: only
/// `https` URLs with a host, on their port or 443.
pub open spec fn spec_public_url_target(scheme: Seq<char>, host: Option<Seq<char>>, port: Option<u16>) -> Option<(Seq<char>, u16)> {
    if scheme != https_word() {
        None
    } else {
        match host {
            Some(h) => Some((h, match port { Some(p) => p, None => 443u16 })),
            None => None,
        }
    }
}

/// The host and port to resolve before fetching from a URL, given its scheme, host and
/// port; `None` when the URL is not `https` or has no host.
pub fn public_url_target(scheme: &str, host: Option<&str>, port: Option<u16>) -> (res: Option<(String, u16)>)
    ensures
        match res {
            Some((h, p)) => spec_public_url_target(
                scheme@,
                match host { Some(x) => Some(x@), None => None },
                port,
            ) == Some((h@, p)),
            None => spec_public_url_target(
                scheme@,
                match host { Some(x) => Some(x@), None => None },
                port,
            ) is None,
        },
{
    let https: Vec<char> = vec!['h', 't', 't', 'p', 's'];
    assert(https@ =~= https_word());
    if !crate::text::str_is(scheme, &https) {
        return None;
    }
    match host {
        Some(h) => {
            let p = match port {
                Some(p) => p,
                None => 443u16,
            };
            Some((String::from_str(h), p))
        },
        None => None,
    }
}

/// How many redirects a fetch may follow.
pub const MAX_REDIRECTS: usize = 5;

/// What to do with a redirect during a fetch.
#[derive(Debug, Clone, Copy, PartialEq, Eq, Structural)]
pub enum RedirectDecision {
    Follow,
    /// `MAX_REDIRECTS` redirects were followed already.
    TooManyRedirects,
    /// The redirect leads to an address that is not public or not `https`.
    NotPublic,
}

/// Decides a redirect from the number of redirects followed before it and whether its
/// target is a public `https` address.
pub fn redirect_decision(previous: usize, target_is_public: bool) -> (d: RedirectDecision)
    ensures
        d == (if previous >= MAX_REDIRECTS {
            RedirectDecision::TooManyRedirects
        } else if target_is_public {
            RedirectDecision::Follow
        } else {
            RedirectDecision::NotPublic
        }),
{
    if previous >= MAX_REDIRECTS {
        RedirectDecision::TooManyRedirects
    } else if target_is_public {
        RedirectDecision::Follow
    } else {
        RedirectDecision::NotPublic
    }
}

} // verus!
