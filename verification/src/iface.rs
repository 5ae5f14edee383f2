//! Selecting the local address and subnet to scan.
//!
//! The host's network interfaces are listed through `pnet`; which ones a
//! machine has depends on the machine, so nothing is assumed about the
//! listing. The selection policy itself is verified over every possible
//! listing: prefer the deployment's designated interface by name; otherwise
//! take the first non-loopback interface that carries an IPv4 address.

use vstd::prelude::*;
use vstd::string::StrSliceExecFns;

use crate::addr::Ipv4;
use crate::addr::SubnetPrefix;

verus! {

/// The interface name the selection policy prefers in this deployment.
pub const PREFERRED_IFACE: &'static str = "enp0s8";

/// One address carried by a host interface: an IPv4 address, or an address
/// of another family, which the scan cannot use.
#[derive(Clone, Copy, PartialEq, Eq, Structural, Debug)]
pub enum IfaceAddr {
    V4(Ipv4),
    Other,
}

/// What the selection policy reads of one host network interface.
#[derive(Clone, Debug)]
pub struct IfaceInfo {
    pub name: String,
    pub loopback: bool,
    pub addrs: Vec<IfaceAddr>,
}

/// Relies on `pnet::datalink::interfaces`, which lists the host's network
/// interfaces; each is handed on as its name, loopback flag and addresses,
/// in listing order. What interfaces a machine has depends on the machine,
/// so nothing is promised of the result.
#[verifier::external_body]
fn host_interfaces() -> Vec<IfaceInfo> {
    pnet::datalink::interfaces().into_iter().map(|f| IfaceInfo {
        loopback: f.is_loopback(),
        name: f.name,
        addrs: f.ips.iter().map(|n| match n {
            pnet::ipnetwork::IpNetwork::V4(v) => {
                let o = v.ip().octets();
                IfaceAddr::V4(Ipv4 { a: o[0], b: o[1], c: o[2], d: o[3] })
            },
            pnet::ipnetwork::IpNetwork::V6(_) => IfaceAddr::Other,
        }).collect(),
    }).collect()
}

/// Whether some address in the list is an IPv4 address.
pub open spec fn has_v4(addrs: Seq<IfaceAddr>) -> bool {
    exists|j: int| 0 <= j < addrs.len() && addrs[j] is V4
}

/// Whether `ip` is the first IPv4 address in the list.
pub open spec fn first_v4_is(addrs: Seq<IfaceAddr>, ip: Ipv4) -> bool {
    exists|j: int|
        0 <= j < addrs.len() && addrs[j] == IfaceAddr::V4(ip) && (forall|k: int|
            0 <= k < j ==> !(addrs[k] is V4))
}

/// Whether position `i` holds the first interface called `name`.
pub open spec fn preferred_at(ifs: Seq<IfaceInfo>, name: Seq<char>, i: int) -> bool {
    0 <= i < ifs.len() && ifs[i].name@ == name && (forall|k: int|
        0 <= k < i ==> ifs[k].name@ != name)
}

/// Whether the first interface called `name` exists and carries an IPv4
/// address: then the policy takes that interface, loopback or not.
pub open spec fn preferred_has_v4(ifs: Seq<IfaceInfo>, name: Seq<char>) -> bool {
    exists|i: int| preferred_at(ifs, name, i) && has_v4(ifs[i].addrs@)
}

/// Whether the first interface called `name` would yield `ip`.
pub open spec fn preferred_yields(ifs: Seq<IfaceInfo>, name: Seq<char>, ip: Ipv4) -> bool {
    exists|i: int| preferred_at(ifs, name, i) && first_v4_is(ifs[i].addrs@, ip)
}

/// Whether position `i` holds the fallback choice: the first non-loopback
/// interface that carries an IPv4 address.
pub open spec fn fallback_at(ifs: Seq<IfaceInfo>, i: int) -> bool {
    0 <= i < ifs.len() && !ifs[i].loopback && has_v4(ifs[i].addrs@) && (forall|k: int|
        0 <= k < i ==> ifs[k].loopback || !has_v4(ifs[k].addrs@))
}

/// Whether the fallback choice would yield `ip`.
pub open spec fn fallback_yields(ifs: Seq<IfaceInfo>, ip: Ipv4) -> bool {
    exists|i: int| fallback_at(ifs, i) && first_v4_is(ifs[i].addrs@, ip)
}

/// Character-for-character string equality.
fn str_eq(a: &str, b: &str) -> (r: bool)
    ensures
        r == (a@ == b@),
{
    let la = a.unicode_len();
    let lb = b.unicode_len();
    if la != lb {
        return false;
    }
    let mut i: usize = 0;
    while i < la
        invariant
            la == a@.len(),
            la == b@.len(),
            0 <= i <= la,
            forall|k: int| 0 <= k < i ==> a@[k] == b@[k],
        decreases la - i,
    {
        if a.get_char(i) != b.get_char(i) {
            return false;
        }
        i += 1;
    }
    proof {
        assert(a@ =~= b@);
    }
    true
}

/// The first IPv4 address in the list, if any.
fn first_v4(addrs: &Vec<IfaceAddr>) -> (r: Option<Ipv4>)
    ensures
        r matches Some(ip) ==> first_v4_is(addrs@, ip),
        r is None ==> !has_v4(addrs@),
{
    let mut i: usize = 0;
    while i < addrs.len()
        invariant
            0 <= i <= addrs@.len(),
            forall|k: int| 0 <= k < i ==> !(addrs@[k] is V4),
        decreases addrs@.len() - i,
    {
        match addrs[i] {
            IfaceAddr::V4(ip) => {
                proof {
                    let j = i as int;
                    assert(addrs@[j] == IfaceAddr::V4(ip) && (forall|k: int|
                        0 <= k < j ==> !(addrs@[k] is V4)));
                }
                return Some(ip);
            },
            IfaceAddr::Other => {},
        }
        i += 1;
    }
    None
}

/// The index of the first interface called `preferred`, if any.
fn find_named(ifs: &Vec<IfaceInfo>, preferred: &str) -> (r: Option<usize>)
    ensures
        r matches Some(i) ==> preferred_at(ifs@, preferred@, i as int),
        r is None ==> forall|k: int| 0 <= k < ifs@.len() ==> ifs@[k].name@ != preferred@,
{
    let mut i: usize = 0;
    while i < ifs.len()
        invariant
            0 <= i <= ifs@.len(),
            forall|k: int| 0 <= k < i ==> ifs@[k].name@ != preferred@,
        decreases ifs@.len() - i,
    {
        if str_eq(ifs[i].name.as_str(), preferred) {
            return Some(i);
        }
        i += 1;
    }
    None
}

/// The fallback choice: the first IPv4 address of the first non-loopback
/// interface that has one.
fn find_fallback(ifs: &Vec<IfaceInfo>) -> (r: Option<Ipv4>)
    ensures
        r matches Some(ip) ==> fallback_yields(ifs@, ip),
        r is None ==> forall|k: int|
            0 <= k < ifs@.len() ==> ifs@[k].loopback || !has_v4(ifs@[k].addrs@),
{
    let mut i: usize = 0;
    while i < ifs.len()
        invariant
            0 <= i <= ifs@.len(),
            forall|k: int| 0 <= k < i ==> ifs@[k].loopback || !has_v4(ifs@[k].addrs@),
        decreases ifs@.len() - i,
    {
        if !ifs[i].loopback {
            match first_v4(&ifs[i].addrs) {
                Some(ip) => {
                    proof {
                        let j = i as int;
                        assert(fallback_at(ifs@, j) && first_v4_is(ifs@[j].addrs@, ip));
                    }
                    return Some(ip);
                },
                None => {},
            }
        }
        i += 1;
    }
    None
}

proof fn lemma_preferred_at_unique(ifs: Seq<IfaceInfo>, name: Seq<char>, i: int, j: int)
    requires
        preferred_at(ifs, name, i),
        preferred_at(ifs, name, j),
    ensures
        i == j,
{
    if i < j {
        assert(ifs[i].name@ != name);
    } else if j < i {
        assert(ifs[j].name@ != name);
    }
}

/// Select the local address and subnet prefix from a listing of the host's
/// interfaces. Policy, in order: the first interface called `preferred`, if
/// it carries an IPv4 address; otherwise the first non-loopback interface
/// carrying one; otherwise nothing, and the node cannot take part.
pub fn resolve_interfaces(ifs: &Vec<IfaceInfo>, preferred: &str) -> (r: Option<
    (Ipv4, SubnetPrefix),
>)
    ensures
        r matches Some(sel) ==> sel.1 == sel.0.spec_prefix(),
        r matches Some(sel) ==> (if preferred_has_v4(ifs@, preferred@) {
            preferred_yields(ifs@, preferred@, sel.0)
        } else {
            fallback_yields(ifs@, sel.0)
        }),
        r is None <==> !preferred_has_v4(ifs@, preferred@) && (forall|k: int|
            0 <= k < ifs@.len() ==> ifs@[k].loopback || !has_v4(ifs@[k].addrs@)),
{
    match find_named(ifs, preferred) {
        Some(i) => {
            match first_v4(&ifs[i].addrs) {
                Some(ip) => {
                    proof {
                        let j = i as int;
                        assert(preferred_at(ifs@, preferred@, j) && first_v4_is(
                            ifs@[j].addrs@,
                            ip,
                        ));
                        assert(preferred_at(ifs@, preferred@, j) && has_v4(ifs@[j].addrs@));
                    }
                    return Some((ip, ip.prefix()));
                },
                None => {
                    proof {
                        if preferred_has_v4(ifs@, preferred@) {
                            let j = choose|j: int|
                                preferred_at(ifs@, preferred@, j) && has_v4(ifs@[j].addrs@);
                            lemma_preferred_at_unique(ifs@, preferred@, i as int, j);
                        }
                    }
                },
            }
        },
        None => {
            proof {
                if preferred_has_v4(ifs@, preferred@) {
                    let j = choose|j: int|
                        preferred_at(ifs@, preferred@, j) && has_v4(ifs@[j].addrs@);
                    assert(ifs@[j].name@ != preferred@);
                }
            }
        },
    }
    match find_fallback(ifs) {
        Some(ip) => Some((ip, ip.prefix())),
        None => None,
    }
}

/// Inspect the host's interfaces and select the local IPv4 address and the
/// /24 subnet prefix a scan will cover. `None` when no interface qualifies:
/// a misconfigured deployment, on which the caller cannot proceed.
pub fn get_network_info() -> (r: Option<(Ipv4, SubnetPrefix)>)
    ensures
        r matches Some(sel) ==> sel.1 == sel.0.spec_prefix(),
{
    let ifs = host_interfaces();
    resolve_interfaces(&ifs, PREFERRED_IFACE)
}

} // verus!
