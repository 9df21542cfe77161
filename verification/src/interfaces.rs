//! Network interfaces as the proxy sees them, and the choices it makes
//! among them: the interface named on the command line, the default
//! interface, and the IPv4 network an interface belongs to.

use vstd::prelude::*;
use crate::decimal::{decimal, push_decimal};
use crate::error::{Error, IoErrorKind, IoFailure};
use crate::packet::{ipv4_text, Ipv4Address};
use crate::text::{push_str, str_equal, string_from_chars};

verus! {

/// The interface flag that marks an interface as up.
pub const IFF_UP: u32 = 0x1;
/// The interface flag that marks a loopback interface.
pub const IFF_LOOPBACK: u32 = 0x8;

/// An IPv4 address with the prefix length of its network.
#[derive(Clone, Copy, Debug, PartialEq, Eq, Structural)]
pub struct Ipv4Network {
    pub ip: Ipv4Address,
    pub prefix: u8,
}

/// An IPv6 address, as eight 16-bit segments, with the prefix length of its network.
#[derive(Clone, Copy, Debug)]
pub struct Ipv6Network {
    pub segments: [u16; 8],
    pub prefix: u8,
}

/// An address assigned to an interface.
#[derive(Clone, Copy, Debug)]
pub enum IpNetwork {
    V4(Ipv4Network),
    V6(Ipv6Network),
}

/// A network interface of the machine.
pub struct NetworkInterface {
    pub name: String,
    pub flags: u32,
    pub ips: Vec<IpNetwork>,
}

impl Ipv4Network {
    /// Whether the prefix length fits an IPv4 address: at most 32 bits.
    pub open spec fn is_valid(self) -> bool {
        self.prefix <= 32
    }
}

impl Ipv6Network {
    /// Whether the prefix length fits an IPv6 address: at most 128 bits.
    pub open spec fn is_valid(self) -> bool {
        self.prefix <= 128
    }
}

impl IpNetwork {
    /// Whether the prefix length fits the address.
    pub open spec fn is_valid(self) -> bool {
        match self {
            IpNetwork::V4(n) => n.is_valid(),
            IpNetwork::V6(n) => n.is_valid(),
        }
    }
}

/// Whether every address of every interface has a prefix length that fits
/// it, as the system's interface list always gives.
pub open spec fn networks_valid(interfaces: Seq<NetworkInterface>) -> bool {
    forall|j: int, k: int|
        0 <= j < interfaces.len() && 0 <= k < interfaces[j].ips@.len()
            ==> (#[trigger] interfaces[j].ips@[k]).is_valid()
}

/// `a.b.c.d/prefix`.
pub open spec fn ipv4_network_text(n: Ipv4Network) -> Seq<char> {
    ipv4_text(n.ip) + "/"@ + decimal(n.prefix as nat)
}

/// Whether the address is a loopback address (127.0.0.0/8 or ::1).
pub open spec fn is_loopback_ip(n: IpNetwork) -> bool {
    match n {
        IpNetwork::V4(v4) => v4.ip.0 == 127,
        IpNetwork::V6(v6) => v6.segments@ == seq![0u16, 0, 0, 0, 0, 0, 0, 1],
    }
}

/// Whether the interface is up.
pub open spec fn is_up(i: NetworkInterface) -> bool {
    i.flags & IFF_UP != 0
}

/// Whether the interface is a loopback interface.
pub open spec fn is_loopback(i: NetworkInterface) -> bool {
    i.flags & IFF_LOOPBACK != 0
}

/// The first index at or after `i` whose element satisfies `p`.
pub open spec fn find_from<T>(s: Seq<T>, p: spec_fn(T) -> bool, i: int) -> Option<int>
    decreases s.len() - i,
{
    if i < 0 || i >= s.len() {
        None
    } else if p(s[i]) {
        Some(i)
    } else {
        find_from(s, p, i + 1)
    }
}

/// The first index whose element satisfies `p`.
pub open spec fn find_first<T>(s: Seq<T>, p: spec_fn(T) -> bool) -> Option<int> {
    find_from(s, p, 0)
}

/// Law: `find_first` gives the least index whose element satisfies the predicate.
pub proof fn lemma_find_first<T>(s: Seq<T>, p: spec_fn(T) -> bool)
    ensures
        find_first(s, p) matches Some(i) ==> 0 <= i < s.len() && p(s[i]) && forall|j: int|
            0 <= j < i ==> !p(#[trigger] s[j]),
        find_first(s, p) is None ==> forall|j: int| 0 <= j < s.len() ==> !p(#[trigger] s[j]),
{
    lemma_find_from(s, p, 0);
}

proof fn lemma_find_from<T>(s: Seq<T>, p: spec_fn(T) -> bool, i: int)
    requires
        0 <= i,
    ensures
        find_from(s, p, i) matches Some(k) ==> i <= k < s.len() && p(s[k]) && forall|j: int|
            i <= j < k ==> !p(#[trigger] s[j]),
        find_from(s, p, i) is None ==> forall|j: int| i <= j < s.len() ==> !p(#[trigger] s[j]),
    decreases s.len() - i,
{
    if i < s.len() && !p(s[i]) {
        lemma_find_from(s, p, i + 1);
    }
}

/// The interfaces whose name is `name`.
pub open spec fn named(name: Seq<char>) -> spec_fn(NetworkInterface) -> bool {
    |i: NetworkInterface| i.name@ == name
}

/// IPv4 networks.
pub open spec fn is_v4() -> spec_fn(IpNetwork) -> bool {
    |n: IpNetwork| n is V4
}

/// Interfaces that can carry the proxied traffic: up, not loopback, and
/// with at least one address outside the loopback networks.
pub open spec fn is_default_candidate() -> spec_fn(NetworkInterface) -> bool {
    |i: NetworkInterface|
        !is_loopback(i) && is_up(i) && exists|k: int|
            0 <= k < i.ips@.len() && !is_loopback_ip(#[trigger] i.ips@[k])
}

fn ip_is_loopback(n: &IpNetwork) -> (r: bool)
    ensures
        r == is_loopback_ip(*n),
{
    match n {
        IpNetwork::V4(v4) => v4.ip.0 == 127,
        IpNetwork::V6(v6) => {
            let s = &v6.segments;
            let r = s[0] == 0 && s[1] == 0 && s[2] == 0 && s[3] == 0 && s[4] == 0 && s[5] == 0
                && s[6] == 0 && s[7] == 1;
            proof {
                if r {
                    assert(v6.segments@ =~= seq![0u16, 0, 0, 0, 0, 0, 0, 1]);
                } else {
                    if v6.segments@ == seq![0u16, 0, 0, 0, 0, 0, 0, 1] {
                        assert(v6.segments@[0] == 0);
                        assert(v6.segments@[7] == 1);
                    }
                }
            }
            r
        },
    }
}

/// The index of the first interface named `name`.
pub fn position_of_interface(name: &str, interfaces: &[NetworkInterface]) -> (r: Option<usize>)
    ensures
        match find_first(interfaces@, named(name@)) {
            Some(i) => r == Some(i as usize),
            None => r is None,
        },
{
    let n = interfaces.len();
    let mut i: usize = 0;
    while i < n
        invariant
            i <= n,
            n == interfaces@.len(),
            find_first(interfaces@, named(name@)) == find_from(interfaces@, named(name@), i as int),
        decreases n - i,
    {
        if str_equal(interfaces[i].name.as_str(), name) {
            return Some(i);
        }
        i += 1;
    }
    None
}

/// The name of the interface called `value`, when the machine has one
/// (what the command line accepts as an interface name).
pub fn find_interface(value: &str, interfaces: &[NetworkInterface]) -> (r: Option<String>)
    ensures
        r is Some <==> find_first(interfaces@, named(value@)) is Some,
        r matches Some(s) ==> s@ == value@,
{
    proof {
        lemma_find_first(interfaces@, named(value@));
    }
    match position_of_interface(value, interfaces) {
        Some(i) => Some(interfaces[i].name.clone()),
        None => None,
    }
}

fn has_non_loopback_ip(ips: &Vec<IpNetwork>) -> (r: bool)
    ensures
        r == exists|k: int| 0 <= k < ips@.len() && !is_loopback_ip(#[trigger] ips@[k]),
{
    let n = ips.len();
    let mut i: usize = 0;
    while i < n
        invariant
            i <= n,
            n == ips@.len(),
            forall|k: int| 0 <= k < i ==> is_loopback_ip(#[trigger] ips@[k]),
        decreases n - i,
    {
        if !ip_is_loopback(&ips[i]) {
            return true;
        }
        i += 1;
    }
    false
}

/// The name of the first interface that is up, is not a loopback
/// interface and has an address outside the loopback networks.
pub fn get_default_network_interface(interfaces: &[NetworkInterface]) -> (r: Option<String>)
    ensures
        match find_first(interfaces@, is_default_candidate()) {
            Some(i) => r matches Some(s) && s@ == interfaces@[i].name@,
            None => r is None,
        },
{
    let n = interfaces.len();
    let mut i: usize = 0;
    while i < n
        invariant
            i <= n,
            n == interfaces@.len(),
            find_first(interfaces@, is_default_candidate()) == find_from(
                interfaces@,
                is_default_candidate(),
                i as int,
            ),
        decreases n - i,
    {
        let iface = &interfaces[i];
        if iface.flags & IFF_LOOPBACK == 0 && iface.flags & IFF_UP != 0 && has_non_loopback_ip(
            &iface.ips,
        ) {
            return Some(iface.name.clone());
        }
        i += 1;
    }
    None
}

/// The first IPv4 network of `ips`.
fn first_ipv4(ips: &Vec<IpNetwork>) -> (r: Option<Ipv4Network>)
    ensures
        match find_first(ips@, is_v4()) {
            Some(k) => r == Some(ips@[k]->V4_0),
            None => r is None,
        },
{
    proof {
        lemma_find_first(ips@, is_v4());
    }
    let n = ips.len();
    let mut i: usize = 0;
    while i < n
        invariant
            i <= n,
            n == ips@.len(),
            find_first(ips@, is_v4()) == find_from(ips@, is_v4(), i as int),
        decreases n - i,
    {
        match &ips[i] {
            IpNetwork::V4(v4) => {
                return Some(*v4);
            },
            IpNetwork::V6(_) => {},
        }
        i += 1;
    }
    None
}

/// `a.b.c.d/prefix` for an IPv4 network.
pub fn ipv4_network_string(n: &Ipv4Network) -> (s: String)
    ensures
        s@ == ipv4_network_text(*n),
{
    let mut out: Vec<char> = Vec::new();
    push_decimal(&mut out, n.ip.0 as u64);
    push_str(&mut out, ".");
    push_decimal(&mut out, n.ip.1 as u64);
    push_str(&mut out, ".");
    push_decimal(&mut out, n.ip.2 as u64);
    push_str(&mut out, ".");
    push_decimal(&mut out, n.ip.3 as u64);
    push_str(&mut out, "/");
    push_decimal(&mut out, n.prefix as u64);
    assert(out@ =~= ipv4_network_text(*n));
    string_from_chars(out)
}

/// A failure with no OS error code and the given message.
pub open spec fn is_plain_failure(f: IoFailure, message: Seq<char>) -> bool {
    f.raw_os_error is None && f.message@ == message
}

fn plain_failure(prefix: &str, name: &str) -> (f: IoFailure)
    ensures
        f.kind == IoErrorKind::Other,
        is_plain_failure(f, prefix@ + name@),
{
    let mut out: Vec<char> = Vec::new();
    push_str(&mut out, prefix);
    push_str(&mut out, name);
    IoFailure { kind: IoErrorKind::Other, raw_os_error: None, message: string_from_chars(out) }
}

/// The first IPv4 network of the interface named `interface`, in
/// `a.b.c.d/prefix` notation, or the text of the failure.
pub open spec fn interface_address_outcome(
    interface: Seq<char>,
    interfaces: Seq<NetworkInterface>,
) -> Result<Seq<char>, Seq<char>> {
    match find_first(interfaces, named(interface)) {
        None => Err("unknown interface: "@ + interface),
        Some(i) => match find_first(interfaces[i].ips@, is_v4()) {
            None => Err("interface has no ipv4 address: "@ + interface),
            Some(k) => Ok(ipv4_network_text(interfaces[i].ips@[k]->V4_0)),
        },
    }
}

/// Law: when every address has a prefix length that fits it, the network
/// text found for an interface is that of an IPv4 network whose prefix is
/// at most 32 bits.
pub proof fn lemma_interface_address_valid(interface: Seq<char>, interfaces: Seq<NetworkInterface>)
    requires
        networks_valid(interfaces),
    ensures
        interface_address_outcome(interface, interfaces) matches Ok(t) ==> exists|n: Ipv4Network|
            n.is_valid() && t == #[trigger] ipv4_network_text(n),
{
    lemma_find_first(interfaces, named(interface));
    if let Some(i) = find_first(interfaces, named(interface)) {
        lemma_find_first(interfaces[i].ips@, is_v4());
        if let Some(k) = find_first(interfaces[i].ips@, is_v4()) {
            let n = interfaces[i].ips@[k]->V4_0;
            assert(interfaces[i].ips@[k].is_valid());
            assert(n.is_valid() && ipv4_network_text(n) == ipv4_network_text(n));
        }
    }
}

/// The first IPv4 network of the interface named `interface`, in
/// `a.b.c.d/prefix` notation.
pub fn get_interface_address(interface: &str, interfaces: &[NetworkInterface]) -> (r: Result<
    String,
    Error,
>)
    ensures
        match interface_address_outcome(interface@, interfaces@) {
            Ok(t) => r matches Ok(s) && s@ == t,
            Err(m) => r matches Err(Error::IoIpv4Tcp(f)) && f.kind == IoErrorKind::Other
                && is_plain_failure(f, m),
        },
{
    proof {
        lemma_find_first(interfaces@, named(interface@));
    }
    let i = match position_of_interface(interface, interfaces) {
        Some(i) => i,
        None => return Err(Error::IoIpv4Tcp(plain_failure("unknown interface: ", interface))),
    };
    match first_ipv4(&interfaces[i].ips) {
        Some(n) => Ok(ipv4_network_string(&n)),
        None => Err(Error::IoIpv4Tcp(plain_failure("interface has no ipv4 address: ", interface))),
    }
}

} // verus!
