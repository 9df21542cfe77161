//! Netfilter set-up: the rulesets that steer proxied packets into a
//! netfilter queue, and the subscription to that queue.

use vstd::prelude::*;
use vstd::string::*;
use crate::decimal::{decimal, push_decimal};
use crate::error::{Error, IoErrorKind, IoFailure};
use std::io::ErrorKind as K;
use crate::interfaces::{find_first, find_from, lemma_find_first};
use crate::packet::{Ipv4Address, IPPROTO_TCP, IPPROTO_UDP};
use crate::text::{push_str, string_from_chars, string_of};

verus! {

broadcast use vstd::slice::group_slice_axioms;

/// Where in the packet path the ruleset's chain hooks in.
#[derive(Clone, Copy, Debug, PartialEq, Eq, Structural)]
pub enum ChainHook {
    /// Before routing of incoming packets, at mangle priority.
    PreRouting,
    /// On locally generated outgoing packets, at filter priority.
    Output,
}

/// Which port of a packet the rules compare.
#[derive(Clone, Copy, Debug, PartialEq, Eq, Structural)]
pub enum PortMatch {
    Destination,
    Source,
}

/// A netfilter table with one chain whose rules send the matching packets
/// of one protocol to a queue, one rule per port range.
pub struct NetfilterRuleset {
    pub table: String,
    pub chain: String,
    pub hook: ChainHook,
    /// IP protocol number of the matched packets.
    pub protocol: u8,
    /// Incoming interface the packets must arrive on, when matched.
    pub interface: Option<String>,
    /// Source address the packets must have, when matched.
    pub src_address: Option<Ipv4Address>,
    pub port_match: PortMatch,
    pub port_ranges: Vec<(u16, u16)>,
    pub queue_num: u16,
}

/// The name of the table for the given protocol and queue.
pub open spec fn table_name_text(protocol: i32, queue_num: u16) -> Option<Seq<char>> {
    if protocol == IPPROTO_TCP as i32 {
        Some("glycerine-tcp-"@ + decimal(queue_num as nat))
    } else if protocol == IPPROTO_UDP as i32 {
        Some("glycerine-udp-"@ + decimal(queue_num as nat))
    } else {
        None
    }
}

/// The name of the table holding the rules for `protocol` and the queue
/// `queue_num`; only TCP and UDP have one.
pub fn netfilter_table_name(protocol: i32, queue_num: u16) -> (r: Result<String, Error>)
    ensures
        match table_name_text(protocol, queue_num) {
            Some(t) => r matches Ok(s) && s@ == t,
            None => r matches Err(Error::UnsupportedProtocol(p)) && p == protocol,
        },
{
    let mut out: Vec<char> = Vec::new();
    if protocol == IPPROTO_TCP as i32 {
        push_str(&mut out, "glycerine-tcp-");
    } else if protocol == IPPROTO_UDP as i32 {
        push_str(&mut out, "glycerine-udp-");
    } else {
        return Err(Error::UnsupportedProtocol(protocol));
    }
    push_decimal(&mut out, queue_num as u64);
    Ok(string_from_chars(out))
}

/// Bytes equal to zero.
pub open spec fn is_nul() -> spec_fn(u8) -> bool {
    |b: u8| b == 0
}

/// The byte offset of the first NUL in the UTF-8 encoding of `s`, which
/// keeps `s` from being a C string.
pub fn nul_position(s: &str) -> (r: Option<usize>)
    ensures
        match find_first(s.spec_bytes(), is_nul()) {
            Some(i) => r matches Some(p) && p as int == i,
            None => r is None,
        },
{
    let bytes = s.as_bytes();
    let n = bytes.len();
    let mut i: usize = 0;
    while i < n
        invariant
            i <= n,
            n == bytes@.len(),
            bytes@ == s.spec_bytes(),
            find_first(s.spec_bytes(), is_nul()) == find_from(s.spec_bytes(), is_nul(), i as int),
        decreases n - i,
    {
        if bytes[i] == 0 {
            return Some(i);
        }
        i += 1;
    }
    None
}

fn copy_ranges(ranges: &[(u16, u16)]) -> (r: Vec<(u16, u16)>)
    ensures
        r@ == ranges@,
{
    let mut v: Vec<(u16, u16)> = Vec::new();
    let n = ranges.len();
    let mut i: usize = 0;
    while i < n
        invariant
            i <= n,
            n == ranges@.len(),
            v@ == ranges@.subrange(0, i as int),
        decreases n - i,
    {
        v.push(ranges[i]);
        i += 1;
        assert(v@ =~= ranges@.subrange(0, i as int));
    }
    assert(ranges@.subrange(0, n as int) =~= ranges@);
    v
}

/// The ruleset that sends incoming `protocol` packets that arrive on
/// `interface` with a destination port in one of `dst_port_ranges` to the
/// queue `queue_num`. Fails for protocols other than TCP and UDP, and for
/// an interface name that is not a C string.
pub fn ingress_ruleset(
    queue_num: u16,
    interface: &str,
    protocol: i32,
    dst_port_ranges: &[(u16, u16)],
) -> (r: Result<NetfilterRuleset, Error>)
    ensures
        match table_name_text(protocol, queue_num) {
            None => r matches Err(Error::UnsupportedProtocol(p)) && p == protocol,
            Some(t) => match find_first(interface.spec_bytes(), is_nul()) {
                Some(i) => r matches Err(Error::CStringNulError(pos)) && pos == i,
                None => r matches Ok(rs) && rs.table@ == t && rs.chain@ == "PREROUTING"@ && rs.hook
                    == ChainHook::PreRouting && rs.protocol == protocol && (rs.interface matches Some(
                    name,
                ) && name@ == interface@) && rs.src_address is None && rs.port_match
                    == PortMatch::Destination && rs.port_ranges@ == dst_port_ranges@ && rs.queue_num
                    == queue_num,
            },
        },
{
    let table = match netfilter_table_name(protocol, queue_num) {
        Ok(t) => t,
        Err(e) => return Err(e),
    };
    proof {
        lemma_find_first(interface.spec_bytes(), is_nul());
    }
    match nul_position(interface) {
        Some(i) => return Err(Error::CStringNulError(i)),
        None => {},
    }
    Ok(
        NetfilterRuleset {
            table,
            chain: string_of("PREROUTING"),
            hook: ChainHook::PreRouting,
            protocol: protocol as u8,
            interface: Some(string_of(interface)),
            src_address: None,
            port_match: PortMatch::Destination,
            port_ranges: copy_ranges(dst_port_ranges),
            queue_num,
        },
    )
}

/// The ruleset that sends locally generated `protocol` packets from
/// `src_address` with a source port in one of `src_port_ranges` to the
/// queue `queue_num`. Fails for protocols other than TCP and UDP.
pub fn egress_ruleset(
    queue_num: u16,
    protocol: i32,
    src_address: Ipv4Address,
    src_port_ranges: &[(u16, u16)],
) -> (r: Result<NetfilterRuleset, Error>)
    ensures
        match table_name_text(protocol, queue_num) {
            None => r matches Err(Error::UnsupportedProtocol(p)) && p == protocol,
            Some(t) => r matches Ok(rs) && rs.table@ == t && rs.chain@ == "OUTPUT"@ && rs.hook
                == ChainHook::Output && rs.protocol == protocol && rs.interface is None
                && rs.src_address == Some(src_address) && rs.port_match == PortMatch::Source
                && rs.port_ranges@ == src_port_ranges@ && rs.queue_num == queue_num,
        },
{
    let table = match netfilter_table_name(protocol, queue_num) {
        Ok(t) => t,
        Err(e) => return Err(e),
    };
    Ok(
        NetfilterRuleset {
            table,
            chain: string_of("OUTPUT"),
            hook: ChainHook::Output,
            protocol: protocol as u8,
            interface: None,
            src_address: Some(src_address),
            port_match: PortMatch::Source,
            port_ranges: copy_ranges(src_port_ranges),
            queue_num,
        },
    )
}

// ------------------------------------------------------------------------
// The netfilter queue

#[verifier::external_type_specification]
#[verifier::external_body]
pub struct ExQueue(nfq::Queue);

#[verifier::external_type_specification]
#[verifier::external_body]
pub struct ExIoError(std::io::Error);

/// One request made of a netfilter queue subscription.
pub enum QueueCall {
    /// Bind to the queue with this number.
    Bind(u16),
    /// Turn the reporting of dropped messages on or off.
    ReportDrops(bool),
}

/// A subscription to a netfilter queue, with what is known of it: the
/// requests made of it since it was opened, the queue it is bound to, and
/// whether the kernel reports the messages it drops for want of space.
pub struct NetfilterQueue {
    queue: nfq::Queue,
    calls: Ghost<Seq<QueueCall>>,
    bound: Ghost<Option<u16>>,
    reports_drops: Ghost<bool>,
}

impl NetfilterQueue {
    /// The requests made of the subscription since it was opened, in order.
    pub closed spec fn calls(self) -> Seq<QueueCall> {
        self.calls@
    }

    /// The queue number the subscription is bound to, if any.
    pub closed spec fn bound_queue(self) -> Option<u16> {
        self.bound@
    }

    /// Whether the kernel reports the messages it drops.
    pub closed spec fn reports_drops(self) -> bool {
        self.reports_drops@
    }

    /// The subscription itself, to receive messages and give verdicts.
    pub fn into_queue(self) -> nfq::Queue {
        self.queue
    }
}

/// Opens a netlink socket for netfilter queues with nfq's `Queue::open`.
/// Whether it succeeds depends on the machine. The source shows that a
/// fresh subscription is bound to no queue and has the reporting of
/// dropped messages turned off.
#[verifier::external_body]
fn queue_open() -> (r: Result<NetfilterQueue, std::io::Error>)
    ensures
        r matches Ok(q) ==> q.calls() == Seq::<QueueCall>::empty() && q.bound_queue() is None
            && !q.reports_drops(),
{
    match nfq::Queue::open() {
        Ok(queue) => Ok(
            NetfilterQueue { queue, calls: Ghost(Seq::empty()), bound: Ghost(None), reports_drops: Ghost(false) },
        ),
        Err(e) => Err(e),
    }
}

/// Binds the subscription to queue `queue_num` with nfq's `Queue::bind`.
/// Whether it succeeds depends on the machine; on success the
/// subscription is bound to that queue. The reporting of dropped messages
/// is left as it was.
#[verifier::external_body]
fn queue_bind(queue: &mut NetfilterQueue, queue_num: u16) -> (r: Result<(), std::io::Error>)
    ensures
        final(queue).calls() == old(queue).calls().push(QueueCall::Bind(queue_num)),
        final(queue).reports_drops() == old(queue).reports_drops(),
        r is Ok ==> final(queue).bound_queue() == Some(queue_num),
{
    queue.queue.bind(queue_num)
}

/// Turns the reporting of dropped messages on or off with nfq's
/// `Queue::set_recv_enobufs`, one socket option. Whether it succeeds
/// depends on the machine; on failure nothing changes.
#[verifier::external_body]
fn queue_set_recv_enobufs(queue: &mut NetfilterQueue, enable: bool) -> (r: Result<(), std::io::Error>)
    ensures
        final(queue).calls() == old(queue).calls().push(QueueCall::ReportDrops(enable)),
        final(queue).bound_queue() == old(queue).bound_queue(),
        r is Ok ==> final(queue).reports_drops() == enable,
        r is Err ==> final(queue).reports_drops() == old(queue).reports_drops(),
{
    queue.queue.set_recv_enobufs(enable)
}

/// The kind of an I/O error, with std's `io::Error::kind`. Nothing is
/// stated of it: the error is an opaque outside value.
#[verifier::external_body]
fn io_error_kind(err: &std::io::Error) -> (r: IoErrorKind) {
    match err.kind() {
        K::NotFound => IoErrorKind::NotFound, K::PermissionDenied => IoErrorKind::PermissionDenied,
        K::ConnectionRefused => IoErrorKind::ConnectionRefused, K::ConnectionReset => IoErrorKind::ConnectionReset,
        K::ConnectionAborted => IoErrorKind::ConnectionAborted, K::NotConnected => IoErrorKind::NotConnected,
        K::AddrInUse => IoErrorKind::AddrInUse, K::AddrNotAvailable => IoErrorKind::AddrNotAvailable,
        K::BrokenPipe => IoErrorKind::BrokenPipe, K::AlreadyExists => IoErrorKind::AlreadyExists,
        K::WouldBlock => IoErrorKind::WouldBlock, K::InvalidInput => IoErrorKind::InvalidInput,
        K::InvalidData => IoErrorKind::InvalidData, K::TimedOut => IoErrorKind::TimedOut,
        K::WriteZero => IoErrorKind::WriteZero, K::Interrupted => IoErrorKind::Interrupted,
        K::Unsupported => IoErrorKind::Unsupported, K::UnexpectedEof => IoErrorKind::UnexpectedEof,
        K::Other => IoErrorKind::Other, _ => IoErrorKind::Unlisted,
    }
}

/// The OS error code of an I/O error, with std's `io::Error::raw_os_error`.
/// Nothing is stated of the code: the error is an opaque outside value,
/// and no name over it can be given.
#[verifier::external_body]
fn io_error_code(err: &std::io::Error) -> (r: Option<i32>) {
    err.raw_os_error()
}

/// The text an I/O error displays, with std's `ToString::to_string`.
/// Nothing is stated of the text: it comes from the system's error
/// strings for an OS error, or from the inner error's own text.
#[verifier::external_body]
fn io_error_text(err: &std::io::Error) -> (r: String) {
    err.to_string()
}

/// The failure that an I/O error records: its kind, its OS error code and
/// its text, as std reports them. Of none of the fields does the contract
/// say more, since all are read from an opaque outside value.
fn io_failure(err: &std::io::Error) -> (f: IoFailure) {
    IoFailure { kind: io_error_kind(err), raw_os_error: io_error_code(err), message: io_error_text(err) }
}

/// Subscribes to the netfilter queue `queue_num`: opens a queue socket,
/// binds it to the queue, then asks to be told when the kernel drops
/// messages for want of buffer space. Each step runs only when the one
/// before it succeeded; every failure is an `IoNfq` error. On success the
/// subscription was bound once, to `queue_num`, and then had the reporting
/// of drops turned on once.
pub fn new_queue(service: &'static str, queue_num: u16) -> (r: Result<NetfilterQueue, Error>)
    ensures
        r matches Err(e) ==> e is IoNfq,
        r matches Ok(q) ==> q.calls() == seq![QueueCall::Bind(queue_num), QueueCall::ReportDrops(true)]
            && q.bound_queue() == Some(queue_num) && q.reports_drops(),
{
    let mut queue = match queue_open() {
        Ok(q) => q,
        Err(err) => return Err(Error::IoNfq(io_failure(&err))),
    };
    match queue_bind(&mut queue, queue_num) {
        Ok(()) => {},
        Err(err) => return Err(Error::IoNfq(io_failure(&err))),
    }
    match queue_set_recv_enobufs(&mut queue, true) {
        Ok(()) => {},
        Err(err) => return Err(Error::IoNfq(io_failure(&err))),
    }
    Ok(queue)
}

} // verus!
