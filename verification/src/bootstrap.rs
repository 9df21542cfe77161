//! The bootstrap record the host proxy hands to the enclave proxy: the
//! network address and MTU of the proxied interface and the ports the
//! enclave uses; and the decisions of the services that send and receive it.

use vstd::prelude::*;
use crate::cli::CliHost;
use crate::error::{Error, IoErrorKind, IoFailure};
use crate::packet::Ipv4Address;
use crate::interfaces::{
    Ipv4Network, get_interface_address, interface_address_outcome, ipv4_network_text,
    is_plain_failure, lemma_interface_address_valid, networks_valid, NetworkInterface,
};
use crate::text::string_of;

verus! {

/// The largest bootstrap record accepted, in bytes.
pub const MAX_RECORD_SIZE: usize = 0x10_0000;

/// The size of the buffer a bootstrap record is first read into.
pub const INITIAL_RECORD_BUFFER: usize = 4096;

/// An inclusive range of ports.
#[derive(Clone, Copy, Debug, PartialEq, Eq, Structural)]
pub struct RecordPortRange {
    pub from: u16,
    pub to: u16,
}

/// The ports the enclave uses.
pub struct RecordPorts {
    pub ephemeral: RecordPortRange,
    pub service: Vec<RecordPortRange>,
}

/// The proxied interface: its IPv4 network in CIDR notation and its MTU.
pub struct RecordInterface {
    pub ipv4_network_address: String,
    pub mtu: i32,
}

/// Everything the enclave proxy needs to set up its network.
pub struct Record {
    pub interface: RecordInterface,
    pub ports: RecordPorts,
}

impl RecordInterface {
    /// The bootstrap description of the interface named `interface`: its
    /// first IPv4 network among `interfaces`, and the MTU that was read
    /// for it.
    pub fn new(interface: &str, interfaces: &[NetworkInterface], mtu: Result<i32, Error>) -> (r:
        Result<RecordInterface, Error>)
        ensures
            match interface_address_outcome(interface@, interfaces@) {
                Err(m) => r matches Err(Error::IoIpv4Tcp(f)) && f.kind == IoErrorKind::Other
                    && is_plain_failure(f, m),
                Ok(address) => match mtu {
                    Err(e) => r == Err::<RecordInterface, Error>(e),
                    Ok(m) => r matches Ok(ri) && ri.ipv4_network_address@ == address && ri.mtu == m,
                },
            },
            networks_valid(interfaces@) && r is Ok ==> exists|n: Ipv4Network|
                n.is_valid() && r->Ok_0.ipv4_network_address@ == #[trigger] ipv4_network_text(n),
    {
        proof {
            if networks_valid(interfaces@) {
                lemma_interface_address_valid(interface@, interfaces@);
            }
        }
        let ipv4_network_address = match get_interface_address(interface, interfaces) {
            Ok(a) => a,
            Err(e) => return Err(e),
        };
        let mtu = match mtu {
            Ok(m) => m,
            Err(e) => return Err(e),
        };
        Ok(RecordInterface { ipv4_network_address, mtu })
    }
}

/// The records of the given port ranges.
pub open spec fn record_ranges(ports: Seq<(u16, u16)>) -> Seq<RecordPortRange> {
    ports.map_values(|p: (u16, u16)| RecordPortRange { from: p.0, to: p.1 })
}

impl Record {
    /// The bootstrap record for the host settings `cfg`: the proxied
    /// interface as `RecordInterface::new` describes it, the enclave's
    /// ephemeral ports, and its service ports in the order given.
    pub fn new(cfg: &CliHost, interfaces: &[NetworkInterface], mtu: Result<i32, Error>) -> (r: Result<
        Record,
        Error,
    >)
        ensures
            match interface_address_outcome(cfg.interface@, interfaces@) {
                Err(m) => r matches Err(Error::IoIpv4Tcp(f)) && f.kind == IoErrorKind::Other
                    && is_plain_failure(f, m),
                Ok(address) => match mtu {
                    Err(e) => r == Err::<Record, Error>(e),
                    Ok(m) => r matches Ok(rec) && rec.interface.ipv4_network_address@ == address
                        && rec.interface.mtu == m && rec.ports.ephemeral == (RecordPortRange {
                        from: cfg.enclave_ephemeral_ports.0,
                        to: cfg.enclave_ephemeral_ports.1,
                    }) && rec.ports.service@ == record_ranges(cfg.enclave_ports@),
                },
            },
    {
        let interface = match RecordInterface::new(cfg.interface.as_str(), interfaces, mtu) {
            Ok(i) => i,
            Err(e) => return Err(e),
        };
        let mut service: Vec<RecordPortRange> = Vec::new();
        let n = cfg.enclave_ports.len();
        let mut i: usize = 0;
        while i < n
            invariant
                i <= n,
                n == cfg.enclave_ports@.len(),
                service@ == record_ranges(cfg.enclave_ports@.subrange(0, i as int)),
            decreases n - i,
        {
            let p = cfg.enclave_ports[i];
            service.push(RecordPortRange { from: p.0, to: p.1 });
            i += 1;
            assert(service@ =~= record_ranges(cfg.enclave_ports@.subrange(0, i as int)));
        }
        assert(cfg.enclave_ports@.subrange(0, n as int) =~= cfg.enclave_ports@);
        Ok(
            Record {
                interface,
                ports: RecordPorts {
                    ephemeral: RecordPortRange {
                        from: cfg.enclave_ephemeral_ports.0,
                        to: cfg.enclave_ephemeral_ports.1,
                    },
                    service,
                },
            },
        )
    }
}

/// The port ranges whose traffic the host proxy sends to the enclave.
pub open spec fn host_port_ranges(cfg: CliHost) -> Seq<(u16, u16)> {
    cfg.enclave_ports@.push(cfg.enclave_ephemeral_ports)
}

/// The port ranges whose traffic the enclave proxy sends to the host.
pub open spec fn enclave_port_ranges(record: Record) -> Seq<(u16, u16)> {
    record.ports.service@.map_values(|p: RecordPortRange| (p.from, p.to)).push(
        (record.ports.ephemeral.from, record.ports.ephemeral.to),
    )
}

/// Law: the enclave, set up from the bootstrap record the host built from
/// its settings, steers back out exactly the port ranges the host steers
/// into it, in the same order.
pub proof fn lemma_port_ranges_agree(cfg: CliHost, record: Record)
    requires
        record.ports.service@ == record_ranges(cfg.enclave_ports@),
        record.ports.ephemeral == (RecordPortRange {
            from: cfg.enclave_ephemeral_ports.0,
            to: cfg.enclave_ephemeral_ports.1,
        }),
    ensures
        enclave_port_ranges(record) == host_port_ranges(cfg),
{
    assert(record.ports.service@.map_values(|p: RecordPortRange| (p.from, p.to))
        =~= cfg.enclave_ports@);
}

/// The port ranges whose traffic the host proxy sends to the enclave: the
/// enclave's service ports, then its ephemeral ports.
pub fn host_destination_port_ranges(cfg: &CliHost) -> (r: Vec<(u16, u16)>)
    ensures
        r@ == host_port_ranges(*cfg),
        r@ == cfg.enclave_ports@ + seq![cfg.enclave_ephemeral_ports],
        r@.len() == cfg.enclave_ports@.len() + 1,
        r@.last() == cfg.enclave_ephemeral_ports,
        forall|j: int| 0 <= j < cfg.enclave_ports@.len() ==> r@[j] == cfg.enclave_ports@[j],
{
    let mut dst_ports: Vec<(u16, u16)> = Vec::new();
    let n = cfg.enclave_ports.len();
    let mut i: usize = 0;
    while i < n
        invariant
            i <= n,
            n == cfg.enclave_ports@.len(),
            dst_ports@ == cfg.enclave_ports@.subrange(0, i as int),
        decreases n - i,
    {
        dst_ports.push(cfg.enclave_ports[i]);
        i += 1;
        assert(dst_ports@ =~= cfg.enclave_ports@.subrange(0, i as int));
    }
    assert(cfg.enclave_ports@.subrange(0, n as int) =~= cfg.enclave_ports@);
    dst_ports.push(cfg.enclave_ephemeral_ports);
    dst_ports
}

/// The port ranges whose traffic the enclave proxy sends to the host: the
/// service ports of the bootstrap record, then its ephemeral ports.
pub fn enclave_source_port_ranges(record: &Record) -> (r: Vec<(u16, u16)>)
    ensures
        r@ == enclave_port_ranges(*record),
        r@.len() == record.ports.service@.len() + 1,
        r@.last() == (record.ports.ephemeral.from, record.ports.ephemeral.to),
        forall|j: int|
            0 <= j < record.ports.service@.len() ==> r@[j] == (
                record.ports.service@[j].from,
                record.ports.service@[j].to,
            ),
{
    let mut src_ports: Vec<(u16, u16)> = Vec::new();
    let n = record.ports.service.len();
    let mut i: usize = 0;
    while i < n
        invariant
            i <= n,
            n == record.ports.service@.len(),
            src_ports@ == record.ports.service@.subrange(0, i as int).map_values(
                |p: RecordPortRange| (p.from, p.to),
            ),
        decreases n - i,
    {
        let p = record.ports.service[i];
        src_ports.push((p.from, p.to));
        i += 1;
        assert(src_ports@ =~= record.ports.service@.subrange(0, i as int).map_values(
            |p: RecordPortRange| (p.from, p.to),
        ));
    }
    assert(record.ports.service@.subrange(0, n as int) =~= record.ports.service@);
    src_ports.push((record.ports.ephemeral.from, record.ports.ephemeral.to));
    src_ports
}

/// The size of the buffer to read the rest of a bootstrap record into,
/// when `read` bytes of a buffer of `len` bytes are filled: the same
/// buffer while it has room, twice as large (but at most the largest
/// record) once it is full, and an error once a full buffer already has
/// the largest size.
pub fn next_record_buffer_len(read: usize, len: usize) -> (r: Result<usize, Error>)
    requires
        read <= len,
    ensures
        read < len ==> r == Ok::<usize, Error>(len),
        read == len && len >= MAX_RECORD_SIZE ==> (r matches Err(Error::IoVsock(f))
            && f.kind == IoErrorKind::InvalidData
            && is_plain_failure(f, "bootstrap record exceeds maximum size"@)),
        read == len && len < MAX_RECORD_SIZE ==> r == Ok::<usize, Error>(
            if 2 * len < MAX_RECORD_SIZE {
                (2 * len) as usize
            } else {
                MAX_RECORD_SIZE
            },
        ),
        len <= MAX_RECORD_SIZE && r is Ok ==> len <= r->Ok_0 <= MAX_RECORD_SIZE,
        0 < len && read == len && r is Ok ==> r->Ok_0 > len,
{
    if read < len {
        return Ok(len);
    }
    if len >= MAX_RECORD_SIZE {
        return Err(
            Error::IoVsock(
                IoFailure {
                    kind: IoErrorKind::InvalidData,
                    raw_os_error: None,
                    message: string_of("bootstrap record exceeds maximum size"),
                },
            ),
        );
    }
    let doubled = len * 2;
    if doubled < MAX_RECORD_SIZE {
        Ok(doubled)
    } else {
        Ok(MAX_RECORD_SIZE)
    }
}

/// Whether the bootstrap service keeps accepting connections after
/// serving one ended with `res`: it does after a success or a vsock
/// failure, and stops on anything else.
pub fn bootstrap_keeps_serving(res: &Result<(), Error>) -> (r: bool)
    ensures
        r == (res is Ok || res matches Err(Error::IoVsock(_))),
{
    match res {
        Ok(_) => true,
        Err(Error::IoVsock(_)) => true,
        Err(_) => false,
    }
}

/// What pnet's `Ipv4Network` reads from the text `s`: the four octets of
/// the address and the prefix length, or the text of its error.
pub uninterp spec fn ipv4_network_from_str(s: Seq<char>) -> Result<(u8, u8, u8, u8, u8), Seq<char>>;

/// Reads an IPv4 network in CIDR notation with pnet's `Ipv4Network::from_str`.
/// Trusted: the result is the one `ipv4_network_from_str` names for the
/// text, and an accepted network has a prefix of at most 32 bits, which
/// `Ipv4Network::new` checks. The source also shows that the text
/// `a.b.c.d/p` of a network with `p` at most 32 reads back, as a network
/// with that same text: the text splits at its one `/`, std reads the
/// address, the prefix is no dotted mask and so is read as a number, and
/// `new` keeps both.
#[verifier::external_body]
fn parse_ipv4_network(s: &str) -> (r: Result<Ipv4Network, String>)
    ensures
        match ipv4_network_from_str(s@) {
            Ok(t) => r == Ok::<Ipv4Network, String>(
                Ipv4Network { ip: Ipv4Address(t.0, t.1, t.2, t.3), prefix: t.4 },
            ),
            Err(m) => r matches Err(e) && e@ == m,
        },
        r matches Ok(n) ==> n.is_valid(),
        r is Ok || !exists|x: Ipv4Network| x.is_valid() && s@ == #[trigger] ipv4_network_text(x),
        r matches Ok(n) ==> (exists|x: Ipv4Network| x.is_valid() && s@ == #[trigger] ipv4_network_text(x))
            ==> s@ == ipv4_network_text(n),
{
    match <pnet::ipnetwork::Ipv4Network as core::str::FromStr>::from_str(s) {
        Ok(n) => {
            let o = n.ip().octets();
            Ok(Ipv4Network { ip: Ipv4Address(o[0], o[1], o[2], o[3]), prefix: n.prefix() })
        },
        Err(e) => Err(e.to_string()),
    }
}

/// The IPv4 network the enclave's interface joins, read from the bootstrap
/// record; an unreadable network is an `IpNetworkError` with pnet's reason.
pub fn enclave_network(record: &Record) -> (r: Result<Ipv4Network, Error>)
    ensures
        match ipv4_network_from_str(record.interface.ipv4_network_address@) {
            Ok(t) => r == Ok::<Ipv4Network, Error>(
                Ipv4Network { ip: Ipv4Address(t.0, t.1, t.2, t.3), prefix: t.4 },
            ),
            Err(m) => r matches Err(Error::IpNetworkError(e)) && e@ == m,
        },
        r matches Ok(n) ==> n.is_valid(),
        (exists|n: Ipv4Network|
            n.is_valid() && record.interface.ipv4_network_address@ == #[trigger] ipv4_network_text(n))
            ==> (r matches Ok(m) && record.interface.ipv4_network_address@ == ipv4_network_text(m)),
{
    match parse_ipv4_network(record.interface.ipv4_network_address.as_str()) {
        Ok(n) => Ok(n),
        Err(m) => Err(Error::IpNetworkError(m)),
    }
}

} // verus!
