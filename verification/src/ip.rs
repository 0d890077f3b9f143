//! Network scoping for the plugin sandbox: the private-address
//! predicate, allowlist screening, and the socket-use check.

use vstd::prelude::*;
use vstd::string::StringExecFns;

use crate::errors::Error;

verus! {

/// An IP address, as the plain numbers the scoping rules read: four
/// octets, or eight 16-bit segments.
#[derive(Debug, Clone, Copy, PartialEq, Eq, Structural)]
pub enum IpAddress {
    V4(u8, u8, u8, u8),
    V6(u16, u16, u16, u16, u16, u16, u16, u16),
}

/// Is the address private, loopback, link-local, unique-local or
/// unspecified? Covers `127/8`, `10/8`, `172.16/12`, `192.168/16`,
/// `169.254/16`, `0.0.0.0`, `::1`, `::`, `fc00::/7` and `fe80::/10`.
pub open spec fn private_ip(ip: IpAddress) -> bool {
    match ip {
        IpAddress::V4(a, b, c, d) => {
            ||| a == 127
            ||| a == 10
            ||| (a == 172 && 16 <= b <= 31)
            ||| (a == 192 && b == 168)
            ||| (a == 169 && b == 254)
            ||| (a == 0 && b == 0 && c == 0 && d == 0)
        },
        IpAddress::V6(s0, s1, s2, s3, s4, s5, s6, s7) => {
            ||| (s0 == 0 && s1 == 0 && s2 == 0 && s3 == 0 && s4 == 0 && s5 == 0 && s6 == 0 && s7
                <= 1)
            ||| (0xfc00 <= s0 <= 0xfdff)
            ||| (0xfe80 <= s0 <= 0xfebf)
        },
    }
}

/// Is the address private, loopback, or link-local?
pub fn is_private_ip(ip: &IpAddress) -> (r: bool)
    ensures
        r == private_ip(*ip),
{
    match ip {
        IpAddress::V4(a, b, c, d) => {
            *a == 127 || *a == 10 || (*a == 172 && 16 <= *b && *b <= 31) || (*a == 192 && *b
                == 168) || (*a == 169 && *b == 254) || (*a == 0 && *b == 0 && *c == 0 && *d == 0)
        },
        IpAddress::V6(s0, s1, s2, s3, s4, s5, s6, s7) => {
            (*s0 == 0 && *s1 == 0 && *s2 == 0 && *s3 == 0 && *s4 == 0 && *s5 == 0 && *s6 == 0
                && *s7 <= 1) || (0xfc00 <= *s0 && *s0 <= 0xfdff) || (0xfe80 <= *s0 && *s0
                <= 0xfebf)
        },
    }
}

/// Does any address of any resolution carry a private address?
pub open spec fn any_private(rs: Seq<(Seq<char>, Seq<IpAddress>)>) -> bool {
    exists|j: int, k: int|
        0 <= j < rs.len() && 0 <= k < rs[j].1.len() && private_ip(#[trigger] rs[j].1[k])
}

/// The resolved addresses of every domain, in input order.
pub open spec fn all_addrs(rs: Seq<(Seq<char>, Seq<IpAddress>)>) -> Seq<IpAddress>
    decreases rs.len(),
{
    if rs.len() == 0 {
        Seq::empty()
    } else {
        all_addrs(rs.drop_last()) + rs.last().1
    }
}

/// The error text for a domain that resolved to a private address.
pub open spec fn ssrf_text(domain: Seq<char>) -> Seq<char> {
    "allowlisted domain '"@ + domain
        + "' resolved to a private/loopback address, which is blocked to prevent SSRF"@
}

/// The error text for a domain that resolved to nothing.
pub open spec fn no_addresses_text(domain: Seq<char>) -> Seq<char> {
    "allowlisted domain '"@ + domain + "' resolved to no addresses"@
}

/// Screen the resolutions of the allowlisted domains: every domain must
/// resolve, no resolved address may be private, and the combined set
/// must be non-empty; the screened addresses come back in input order.
///
/// The caller resolves each (trimmed, non-empty) allowlisted domain and
/// hands the outcomes over in allowlist order.
pub fn screen_resolutions(results: &Vec<(String, Vec<IpAddress>)>) -> (r: Result<
    Vec<IpAddress>,
    Error,
>)
    ensures
        r is Ok <==> ({
            let rs = results@.map_values(
                |p: (String, Vec<IpAddress>)| (p.0@, p.1@),
            );
            &&& rs.len() > 0
            &&& forall|j: int| 0 <= j < rs.len() ==> (#[trigger] rs[j].1).len() > 0
            &&& !any_private(rs)
        }),
        r is Ok ==> r->Ok_0@ == all_addrs(
            results@.map_values(|p: (String, Vec<IpAddress>)| (p.0@, p.1@)),
        ),
        r is Ok ==> forall|k: int|
            0 <= k < r->Ok_0@.len() ==> !private_ip(#[trigger] r->Ok_0@[k]),
        r is Err ==> r->Err_0 is Plugin,
        r is Err ==> (r->Err_0.spec_message()
            == "network permission enabled but no allowlisted domains were resolved"@ || exists|
            j: int,
        |
            #![auto]
            0 <= j < results@.len() && ((r->Err_0.spec_message() == no_addresses_text(
                results@[j].0@,
            ) && results@[j].1@.len() == 0) || (r->Err_0.spec_message() == ssrf_text(
                results@[j].0@,
            ) && exists|k: int|
                0 <= k < results@[j].1@.len() && private_ip(#[trigger] results@[j].1@[k])))),
{
    let ghost rs = results@.map_values(|p: (String, Vec<IpAddress>)| (p.0@, p.1@));
    let mut out: Vec<IpAddress> = Vec::new();
    let mut j: usize = 0;
    while j < results.len()
        invariant
            rs == results@.map_values(|p: (String, Vec<IpAddress>)| (p.0@, p.1@)),
            j <= results@.len(),
            out@ == all_addrs(rs.take(j as int)),
            forall|a: int, b: int|
                0 <= a < j && 0 <= b < rs[a].1.len() ==> !private_ip(#[trigger] rs[a].1[b]),
            forall|a: int| 0 <= a < j ==> (#[trigger] rs[a].1).len() > 0,
        decreases results@.len() - j,
    {
        let addrs = &results[j].1;
        if addrs.len() == 0 {
            proof {
                assert(rs[j as int].1.len() == 0);
            }
            let mut msg = String::new();
            msg.append("allowlisted domain '");
            msg.append(results[j].0.as_str());
            msg.append("' resolved to no addresses");
            proof {
                assert(msg@ =~= no_addresses_text(results@[j as int].0@));
                assert(results@[j as int].1@.len() == 0);
            }
            return Err(Error::Plugin(msg));
        }
        let mut k: usize = 0;
        while k < addrs.len()
            invariant
                rs == results@.map_values(|p: (String, Vec<IpAddress>)| (p.0@, p.1@)),
                j < results@.len(),
                addrs@ == rs[j as int].1,
                k <= addrs@.len(),
                forall|b: int| 0 <= b < k ==> !private_ip(#[trigger] addrs@[b]),
            decreases addrs@.len() - k,
        {
            if is_private_ip(&addrs[k]) {
                let mut msg = String::new();
                msg.append("allowlisted domain '");
                msg.append(results[j].0.as_str());
                msg.append(
                    "' resolved to a private/loopback address, which is blocked to prevent SSRF",
                );
                proof {
                    assert(msg@ =~= ssrf_text(results@[j as int].0@));
                    assert(private_ip(results@[j as int].1@[k as int]));
                }
                return Err(Error::Plugin(msg));
            }
            k = k + 1;
        }
        let mut m: usize = 0;
        while m < addrs.len()
            invariant
                rs == results@.map_values(|p: (String, Vec<IpAddress>)| (p.0@, p.1@)),
                j < results@.len(),
                addrs@ == rs[j as int].1,
                m <= addrs@.len(),
                out@ == all_addrs(rs.take(j as int)) + addrs@.take(m as int),
            decreases addrs@.len() - m,
        {
            out.push(addrs[m]);
            m = m + 1;
            proof {
                assert(addrs@.take(m as int) =~= addrs@.take(m as int - 1).push(
                    addrs@[m as int - 1],
                ));
                assert(out@ =~= all_addrs(rs.take(j as int)) + addrs@.take(m as int));
            }
        }
        j = j + 1;
        proof {
            assert(rs.take(j as int).drop_last() =~= rs.take(j as int - 1));
            assert(addrs@.take(addrs@.len() as int) =~= addrs@);
            assert(out@ =~= all_addrs(rs.take(j as int)));
        }
    }
    if out.len() == 0 {
        return Err(
            Error::Plugin(
                String::from_str(
                    "network permission enabled but no allowlisted domains were resolved",
                ),
            ),
        );
    }
    proof {
        assert(rs.take(rs.len() as int) =~= rs);
        if rs.len() == 0 {
            assert(out@ =~= Seq::<IpAddress>::empty());
        }
        assert forall|k: int| 0 <= k < out@.len() implies !private_ip(#[trigger] out@[k]) by {
            lemma_all_addrs_from(rs, k);
        }
    }
    Ok(out)
}

/// Every address in the combined sequence comes from one resolution.
proof fn lemma_all_addrs_from(rs: Seq<(Seq<char>, Seq<IpAddress>)>, k: int)
    requires
        0 <= k < all_addrs(rs).len(),
        forall|a: int, b: int|
            0 <= a < rs.len() && 0 <= b < rs[a].1.len() ==> !private_ip(#[trigger] rs[a].1[b]),
    ensures
        !private_ip(all_addrs(rs)[k]),
    decreases rs.len(),
{
    if rs.len() > 0 {
        let pre = all_addrs(rs.drop_last());
        if k < pre.len() {
            lemma_all_addrs_from(rs.drop_last(), k);
            assert(forall|a: int, b: int|
                0 <= a < rs.drop_last().len() && 0 <= b < rs.drop_last()[a].1.len()
                    ==> !private_ip(#[trigger] rs.drop_last()[a].1[b]));
        } else {
            assert(all_addrs(rs)[k] == rs.last().1[k - pre.len()]);
            assert(rs[rs.len() - 1].1 == rs.last().1);
        }
    }
}

/// How a guest wants to use a socket address.
#[derive(Debug, Clone, Copy, PartialEq, Eq, Structural)]
pub enum SocketUse {
    TcpConnect,
    UdpConnect,
    UdpOutgoingDatagram,
    TcpBind,
    UdpBind,
}

/// Does the sandbox permit this socket use? Outgoing connections and
/// datagrams may go to screened addresses only; binds are always
/// refused.
pub fn socket_use_allowed(use_kind: SocketUse, ip: &IpAddress, allowed: &Vec<IpAddress>) -> (r:
    bool)
    ensures
        r <==> ((use_kind is TcpConnect || use_kind is UdpConnect || use_kind
            is UdpOutgoingDatagram) && allowed@.contains(*ip)),
{
    let outgoing = match use_kind {
        SocketUse::TcpConnect => true,
        SocketUse::UdpConnect => true,
        SocketUse::UdpOutgoingDatagram => true,
        SocketUse::TcpBind => false,
        SocketUse::UdpBind => false,
    };
    if !outgoing {
        return false;
    }
    let mut i: usize = 0;
    while i < allowed.len()
        invariant
            use_kind is TcpConnect || use_kind is UdpConnect || use_kind is UdpOutgoingDatagram,
            i <= allowed@.len(),
            forall|k: int| 0 <= k < i ==> allowed@[k] != *ip,
        decreases allowed@.len() - i,
    {
        if ip_eq(&allowed[i], ip) {
            proof {
                assert(allowed@[i as int] == *ip);
            }
            return true;
        }
        i = i + 1;
    }
    proof {
        assert(!allowed@.contains(*ip));
    }
    false
}

/// Compare two addresses.
fn ip_eq(a: &IpAddress, b: &IpAddress) -> (r: bool)
    ensures
        r == (*a == *b),
{
    match (a, b) {
        (IpAddress::V4(a0, a1, a2, a3), IpAddress::V4(b0, b1, b2, b3)) => {
            *a0 == *b0 && *a1 == *b1 && *a2 == *b2 && *a3 == *b3
        },
        (
            IpAddress::V6(a0, a1, a2, a3, a4, a5, a6, a7),
            IpAddress::V6(b0, b1, b2, b3, b4, b5, b6, b7),
        ) => {
            *a0 == *b0 && *a1 == *b1 && *a2 == *b2 && *a3 == *b3 && *a4 == *b4 && *a5 == *b5 && *a6
                == *b6 && *a7 == *b7
        },
        _ => false,
    }
}

} // verus!
