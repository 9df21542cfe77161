//! The proxy's configuration, as the command line gives it, and the checks
//! made on it before anything is set up.

use vstd::prelude::*;
use crate::error::Error;
use crate::packet::Ipv4Address;
use crate::text::{chars_of, string_of};

verus! {

/// A vsock address: a context id and a port.
#[derive(Clone, Copy, Debug, PartialEq, Eq, Structural)]
pub struct VsockAddress {
    pub cid: u32,
    pub port: u32,
}

/// An IPv4 socket address.
#[derive(Clone, Copy, Debug, PartialEq, Eq, Structural)]
pub struct Ipv4SocketAddress {
    pub ip: Ipv4Address,
    pub port: u16,
}

/// Settings of the proxy running in the enclave.
pub struct CliEnclave {
    /// proxied network interface
    pub interface: String,
    /// vsock address of the bootstrap service on the host vm
    pub bootstrap_vsock_address: VsockAddress,
    /// vsock address to receive ingress IP packets on
    pub ingress_vsock_address: VsockAddress,
    /// netfilter queue number to use for egress
    pub egress_netfilter_queue_num: u16,
    /// max length for the egress netfilter queue
    pub egress_netfilter_queue_max_len: u32,
    /// vsock address to send the egress IP packets from the enclave to
    pub egress_vsock_address: VsockAddress,
    /// only configure networking and quit
    pub setup_only: bool,
}

/// Settings of the proxy running on the host (parent) vm.
pub struct CliHost {
    /// proxied network interface
    pub interface: String,
    /// ports used by the enclave to accept connections on; must not overlap
    /// with the enclave or host ephemeral ports
    pub enclave_ports: Vec<(u16, u16)>,
    /// ports used by the enclave to initiate connections from; must not
    /// overlap with the enclave ports or the host ephemeral ports
    pub enclave_ephemeral_ports: (u16, u16),
    /// ports used by the host to initiate connections from; must not
    /// overlap with the enclave ports or the enclave ephemeral ports
    pub host_ephemeral_ports: (u16, u16),
    /// vsock address to run the enclave bootstrap service on
    pub bootstrap_vsock_address: VsockAddress,
    /// only configure networking and quit
    pub setup_only: bool,
    /// netfilter queue number to use for ingress
    pub ingress_netfilter_queue_num: u16,
    /// vsock address of the enclave to send ingress IP packets to
    pub ingress_vsock_address: VsockAddress,
    /// vsock address to receive egress IP packets from the enclave on
    pub egress_vsock_address: VsockAddress,
    /// egress sink IPv4 address
    pub egress_ipv4_sink_address: Ipv4SocketAddress,
}

/// The format of log lines.
#[derive(Clone, Copy, Debug, PartialEq, Eq, Structural)]
pub enum CliLoggingFormat {
    Json,
    Text,
}

/// Logging settings.
pub struct CliLogging {
    pub format: CliLoggingFormat,
    /// the log filter directives, such as `info`
    pub level: String,
}

/// What to run.
pub enum CliCommands {
    /// Run the enclave proxy.
    CliEnclave(Box<CliEnclave>),
    /// Run the host (parent VM) proxy.
    CliHost(Box<CliHost>),
}

/// The whole command line.
pub struct Cli {
    pub logging: CliLogging,
    pub command: CliCommands,
}

/// `c` with ASCII upper-case letters turned to lower case.
pub open spec fn ascii_lower(c: char) -> char {
    if 'A' <= c && c <= 'Z' {
        ((c as int) + 32) as char
    } else {
        c
    }
}

/// `s` in lower case, for the names of logging formats.
pub open spec fn lowercase(s: Seq<char>) -> Seq<char> {
    s.map_values(|c: char| ascii_lower(c))
}

/// Whether `s` names a logging format, in any letter case.
pub open spec fn is_format_name(s: Seq<char>) -> bool {
    lowercase(s) == "json"@ || lowercase(s) == "text"@
}

/// The name of a logging format.
pub open spec fn format_name(f: CliLoggingFormat) -> Seq<char> {
    match f {
        CliLoggingFormat::Json => "json"@,
        CliLoggingFormat::Text => "text"@,
    }
}

fn lower_char(c: char) -> (r: char)
    ensures
        r == ascii_lower(c),
{
    if 'A' <= c && c <= 'Z' {
        (((c as u32) + 32) as u8) as char
    } else {
        c
    }
}

impl CliLoggingFormat {
    /// The format named `value`, in any letter case; other names are not
    /// logging formats.
    pub fn from(value: &str) -> (r: CliLoggingFormat)
        requires
            is_format_name(value@),
        ensures
            lowercase(value@) == format_name(r),
    {
        let chars = chars_of(value);
        let mut lower: Vec<char> = Vec::new();
        let mut i: usize = 0;
        while i < chars.len()
            invariant
                i <= chars@.len(),
                chars@ == value@,
                lower@ == lowercase(value@).subrange(0, i as int),
            decreases chars@.len() - i,
        {
            lower.push(lower_char(chars[i]));
            i += 1;
            assert(lower@ =~= lowercase(value@).subrange(0, i as int));
        }
        assert(lower@ =~= lowercase(value@));
        let json = chars_of("json");
        if crate::text::chars_equal(&lower, &json) {
            CliLoggingFormat::Json
        } else {
            CliLoggingFormat::Text
        }
    }

    /// The name of the format, as logs and the command line write it.
    pub fn to_string(&self) -> (s: String)
        ensures
            s@ == format_name(*self),
    {
        match self {
            CliLoggingFormat::Json => string_of("json"),
            CliLoggingFormat::Text => string_of("text"),
        }
    }
}

impl CliLogging {
    /// JSON lines at level `info`.
    pub fn default() -> (r: CliLogging)
        ensures
            r.format == CliLoggingFormat::Json,
            r.level@ == "info"@,
    {
        CliLogging { format: CliLoggingFormat::Json, level: string_of("info") }
    }
}

/// Whether two inclusive port ranges share a port.
pub open spec fn ranges_overlap(a: (u16, u16), b: (u16, u16)) -> bool {
    a.0 <= a.1 && b.0 <= b.1 && a.0 <= b.1 && b.0 <= a.1
}

/// Whether port `p` lies in the inclusive range `r`.
pub open spec fn in_range(p: int, r: (u16, u16)) -> bool {
    r.0 <= p <= r.1
}

/// Law: two inclusive port ranges overlap exactly when some port lies in both.
pub proof fn lemma_ranges_overlap(a: (u16, u16), b: (u16, u16))
    ensures
        ranges_overlap(a, b) <==> exists|p: int| #[trigger] in_range(p, a) && in_range(p, b),
{
    if ranges_overlap(a, b) {
        let p: int = if a.0 <= b.0 {
            b.0 as int
        } else {
            a.0 as int
        };
        assert(in_range(p, a) && in_range(p, b));
    }
}

/// Whether some range of `ranges` overlaps `r`.
pub open spec fn any_overlaps(ranges: Seq<(u16, u16)>, r: (u16, u16)) -> bool {
    exists|i: int| 0 <= i < ranges.len() && ranges_overlap(#[trigger] ranges[i], r)
}

/// Whether `e` is the configuration error with message `m`.
pub open spec fn is_config_error(e: Error, m: Seq<char>) -> bool {
    e matches Error::GlycerineInvalidConfig(s) && s@ == m
}

fn overlap(a: (u16, u16), b: (u16, u16)) -> (r: bool)
    ensures
        r == ranges_overlap(a, b),
{
    a.0 <= a.1 && b.0 <= b.1 && a.0 <= b.1 && b.0 <= a.1
}

fn find_overlap(ranges: &Vec<(u16, u16)>, r: (u16, u16)) -> (found: bool)
    ensures
        found == any_overlaps(ranges@, r),
{
    let n = ranges.len();
    let mut i: usize = 0;
    while i < n
        invariant
            i <= n,
            n == ranges@.len(),
            forall|j: int| 0 <= j < i ==> !ranges_overlap(#[trigger] ranges@[j], r),
        decreases n - i,
    {
        if overlap(ranges[i], r) {
            return true;
        }
        i += 1;
    }
    false
}

/// Checks that the host ephemeral ports, the enclave ephemeral ports and
/// the enclave service ports are pairwise disjoint, as the settings demand.
pub fn ensure_no_port_overlaps(cfg: &CliHost) -> (r: Result<(), Error>)
    ensures
        ranges_overlap(cfg.enclave_ephemeral_ports, cfg.host_ephemeral_ports) ==> (r matches Err(e)
            && is_config_error(e, "host and enclave ephemeral ports overlap"@)),
        !ranges_overlap(cfg.enclave_ephemeral_ports, cfg.host_ephemeral_ports) && any_overlaps(
            cfg.enclave_ports@,
            cfg.host_ephemeral_ports,
        ) ==> (r matches Err(e) && is_config_error(
            e,
            "enclave service ports overlap with host ephemeral ports"@,
        )),
        !ranges_overlap(cfg.enclave_ephemeral_ports, cfg.host_ephemeral_ports) && !any_overlaps(
            cfg.enclave_ports@,
            cfg.host_ephemeral_ports,
        ) && any_overlaps(cfg.enclave_ports@, cfg.enclave_ephemeral_ports) ==> (r matches Err(e)
            && is_config_error(e, "enclave service ports overlap with enclave ephemeral ports"@)),
        r is Ok <==> (!ranges_overlap(cfg.enclave_ephemeral_ports, cfg.host_ephemeral_ports)
            && !any_overlaps(cfg.enclave_ports@, cfg.host_ephemeral_ports) && !any_overlaps(
            cfg.enclave_ports@,
            cfg.enclave_ephemeral_ports,
        )),
{
    if overlap(cfg.enclave_ephemeral_ports, cfg.host_ephemeral_ports) {
        return Err(Error::GlycerineInvalidConfig(string_of("host and enclave ephemeral ports overlap")));
    }
    if find_overlap(&cfg.enclave_ports, cfg.host_ephemeral_ports) {
        return Err(
            Error::GlycerineInvalidConfig(
                string_of("enclave service ports overlap with host ephemeral ports"),
            ),
        );
    }
    if find_overlap(&cfg.enclave_ports, cfg.enclave_ephemeral_ports) {
        return Err(
            Error::GlycerineInvalidConfig(
                string_of("enclave service ports overlap with enclave ephemeral ports"),
            ),
        );
    }
    Ok(())
}

} // verus!
