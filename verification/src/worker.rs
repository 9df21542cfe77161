//! Decisions taken by the packet-forwarding loops: which IPv4 packets to
//! accept from a vsock stream, where to send them, how far a partial send
//! has come, and which connection to rebuild after a failure.

use vstd::prelude::*;
use crate::error::{Error, IoErrorKind, IoFailure};
use crate::decimal::decimal;
use crate::packet::{
    be16, endpoints_text, payload_text, spec_parse_ipv4, tcp_text, udp_text, IPPROTO_TCP,
    IPPROTO_UDP, MAX_PACKET_SIZE,
};
use crate::text::string_of;

verus! {

/// The length and protocol of the IPv4 packet whose fixed header is `h`,
/// when the header is a plausible IPv4 header.
pub open spec fn spec_ipv4_total_len(h: Seq<u8>) -> Option<(usize, u8)> {
    if h[0] / 16 != 4 {
        None
    } else {
        let header_len = 4 * (h[0] % 16);
        if header_len < 20 {
            None
        } else {
            let packet_len = be16(h, 2);
            if packet_len < header_len || 0xFFFF < packet_len {
                None
            } else {
                Some((packet_len as usize, h[9]))
            }
        }
    }
}

/// The error for a header that is not a plausible IPv4 header.
pub open spec fn is_invalid_packet_error(e: Error) -> bool {
    e == Error::GlycerineInvalidIpv4Packet
}

/// Reads the length and protocol number of an IPv4 packet from its fixed
/// 20-byte header; refuses headers of another IP version, with a header
/// length below 20 bytes, or with a total length shorter than the header.
pub fn ipv4_total_len(header: &[u8; 20]) -> (r: Result<(usize, u8), Error>)
    ensures
        match spec_ipv4_total_len(header@) {
            Some(v) => r == Ok::<(usize, u8), Error>(v),
            None => r matches Err(e) && is_invalid_packet_error(e),
        },
        r matches Ok((len, _)) ==> 20 <= len <= MAX_PACKET_SIZE,
{
    if header[0] / 16 != 4 {
        return Err(Error::GlycerineInvalidIpv4Packet);
    }
    let header_len: usize = 4 * ((header[0] % 16) as usize);
    if header_len < 20 {
        return Err(Error::GlycerineInvalidIpv4Packet);
    }
    let packet_len: usize = (header[2] as usize) * 256 + (header[3] as usize);
    if packet_len < header_len || MAX_PACKET_SIZE < packet_len {
        return Err(Error::GlycerineInvalidIpv4Packet);
    }
    Ok((packet_len, header[9]))
}

/// Law: a packet that the vsock-to-IPv4 pump reads whole (the length its
/// header check returned) carries a complete IPv4 header of version 4 whose
/// total length is exactly the bytes read, so its summary is the one for
/// its protocol and never a truncated or malformed packet.
pub proof fn lemma_accepted_packet_is_whole(p: Seq<u8>)
    requires
        p.len() >= 20,
        spec_ipv4_total_len(p.subrange(0, 20)) matches Some((n, _)) && p.len() == n,
    ensures
        spec_parse_ipv4(p) matches Some(h) && h.version == 4 && h.header_len <= h.total_len
            && h.total_len == p.len() && payload_text(p) == {
            let payload = p.subrange(h.header_len as int, h.total_len as int);
            if h.protocol == IPPROTO_TCP {
                tcp_text(h, payload)
            } else if h.protocol == IPPROTO_UDP {
                udp_text(h, payload)
            } else {
                endpoints_text(h) + ": ip-proto-"@ + decimal(h.protocol as nat) + ", length "@
                    + decimal(payload.len())
            }
        },
{
    let h = p.subrange(0, 20);
    assert(h[0] == p[0] && h[2] == p[2] && h[3] == p[3]);
}

/// Law: a fixed IPv4 header is accepted exactly when it is of version 4,
/// its header length (in 32-bit words, the low half of the first byte) is
/// at least 20 bytes, and its total length (bytes 2 and 3, big-endian) is
/// at least the header length; the other bytes (type of service,
/// identification, flags, fragment offset, time to live, checksum,
/// addresses) play no part. An accepted header gives its total length and
/// its protocol byte.
pub proof fn lemma_ipv4_header_acceptance(h: Seq<u8>)
    requires
        h.len() == 20,
    ensures
        ({
            let header_len = 4 * (h[0] % 16);
            let total_len = (h[2] as int) * 256 + (h[3] as int);
            &&& (h[0] / 16 == 4 && header_len >= 20 && header_len <= total_len)
                ==> spec_ipv4_total_len(h) == Some::<(usize, u8)>((total_len as usize, h[9]))
            &&& !(h[0] / 16 == 4 && header_len >= 20 && header_len <= total_len)
                ==> spec_ipv4_total_len(h) is None
        }),
{
}

/// Law: two fixed headers that agree in their first byte (version and
/// header length), their total length (bytes 2 and 3) and their protocol
/// (byte 9) are judged alike, whatever their other bytes hold.
pub proof fn lemma_ipv4_header_other_bytes_ignored(h: Seq<u8>, g: Seq<u8>)
    requires
        h.len() == 20,
        g.len() == 20,
        h[0] == g[0],
        h[2] == g[2],
        h[3] == g[3],
        h[9] == g[9],
    ensures
        spec_ipv4_total_len(h) == spec_ipv4_total_len(g),
{
}

/// The raw socket an IPv4 packet is sent through.
#[derive(Clone, Copy, Debug, PartialEq, Eq, Structural)]
pub enum Ipv4Sink {
    Tcp,
    Udp,
}

/// The raw socket for packets of IP protocol `protocol`; `None` for
/// protocols that are not forwarded.
pub fn sink_for_protocol(protocol: u8) -> (r: Option<Ipv4Sink>)
    ensures
        protocol == IPPROTO_TCP ==> r == Some(Ipv4Sink::Tcp),
        protocol == IPPROTO_UDP ==> r == Some(Ipv4Sink::Udp),
        protocol != IPPROTO_TCP && protocol != IPPROTO_UDP ==> r is None,
{
    if protocol == IPPROTO_TCP {
        Some(Ipv4Sink::Tcp)
    } else if protocol == IPPROTO_UDP {
        Some(Ipv4Sink::Udp)
    } else {
        None
    }
}

/// The error for a failed send through the given raw socket.
pub fn sink_error(sink: Ipv4Sink, failure: IoFailure) -> (e: Error)
    ensures
        sink == Ipv4Sink::Tcp ==> e == Error::IoIpv4Tcp(failure),
        sink == Ipv4Sink::Udp ==> e == Error::IoIpv4Udp(failure),
{
    match sink {
        Ipv4Sink::Tcp => Error::IoIpv4Tcp(failure),
        Ipv4Sink::Udp => Error::IoIpv4Udp(failure),
    }
}

/// The position in a buffer of `total` bytes after a write of `written`
/// bytes at position `sent`; `None` when the write made no progress, which
/// the loops treat as a failed write.
pub fn advance_transfer(sent: usize, total: usize, written: usize) -> (r: Option<usize>)
    requires
        sent < total,
        written <= total - sent,
    ensures
        written == 0 <==> r is None,
        r matches Some(next) ==> next == sent + written && sent < next <= total,
{
    if written > 0 {
        Some(sent + written)
    } else {
        None
    }
}

/// The failure recorded when a write or send made no progress.
pub fn zero_progress_failure(message: &str) -> (f: IoFailure)
    ensures
        f.kind == IoErrorKind::WriteZero,
        f.raw_os_error is None,
        f.message@ == message@,
{
    IoFailure { kind: IoErrorKind::WriteZero, raw_os_error: None, message: string_of(message) }
}

/// What the vsock-to-IPv4 loop does after its pump stopped.
#[derive(Clone, Copy, Debug, PartialEq, Eq, Structural)]
pub enum VsockToIpv4Recovery {
    /// Accept a new vsock connection and pump again.
    RecreateVsock,
    /// Open a new raw TCP socket and pump again.
    RecreateTcpSink,
    /// Open a new raw UDP socket and pump again.
    RecreateUdpSink,
    /// Stop with the pump's result.
    Stop,
}

/// Which connection to rebuild after the vsock-to-IPv4 pump returned `res`.
pub fn vsock_to_ipv4_recovery(res: &Result<(), Error>) -> (r: VsockToIpv4Recovery)
    ensures
        r == (match res {
            Err(Error::IoVsock(_)) => VsockToIpv4Recovery::RecreateVsock,
            Err(Error::IoIpv4Tcp(_)) => VsockToIpv4Recovery::RecreateTcpSink,
            Err(Error::IoIpv4Udp(_)) => VsockToIpv4Recovery::RecreateUdpSink,
            _ => VsockToIpv4Recovery::Stop,
        }),
{
    match res {
        Err(Error::IoVsock(_)) => VsockToIpv4Recovery::RecreateVsock,
        Err(Error::IoIpv4Tcp(_)) => VsockToIpv4Recovery::RecreateTcpSink,
        Err(Error::IoIpv4Udp(_)) => VsockToIpv4Recovery::RecreateUdpSink,
        _ => VsockToIpv4Recovery::Stop,
    }
}

/// What the netfilter-queue-to-vsock loop does after its pump stopped.
#[derive(Clone, Copy, Debug, PartialEq, Eq, Structural)]
pub enum NfqToVsockRecovery {
    /// Subscribe to the netfilter queue again and pump again.
    RecreateQueue,
    /// Connect to the vsock peer again and pump again.
    RecreateVsock,
    /// Stop with the pump's result.
    Stop,
}

/// Which connection to rebuild after the netfilter-queue pump returned `res`.
pub fn nfq_to_vsock_recovery(res: &Result<(), Error>) -> (r: NfqToVsockRecovery)
    ensures
        r == (match res {
            Err(Error::IoNfq(_)) => NfqToVsockRecovery::RecreateQueue,
            Err(Error::IoVsock(_)) => NfqToVsockRecovery::RecreateVsock,
            _ => NfqToVsockRecovery::Stop,
        }),
{
    match res {
        Err(Error::IoNfq(_)) => NfqToVsockRecovery::RecreateQueue,
        Err(Error::IoVsock(_)) => NfqToVsockRecovery::RecreateVsock,
        _ => NfqToVsockRecovery::Stop,
    }
}

/// What the netfilter-queue pump does after a failed receive.
#[derive(Clone, Copy, Debug, PartialEq, Eq, Structural)]
pub enum ReceiveFailureAction {
    /// The kernel dropped messages because the socket buffer overflowed;
    /// carry on receiving.
    Continue,
    /// Stop the pump with an `IoNfq` error.
    Fail,
}

/// The Linux error number for "no buffer space available".
pub const ENOBUFS: i32 = 105;

/// How the netfilter-queue pump reacts to a receive that failed with `failure`.
pub fn nfq_receive_failure_action(failure: &IoFailure) -> (r: ReceiveFailureAction)
    ensures
        r == (if failure.raw_os_error == Some(ENOBUFS) {
            ReceiveFailureAction::Continue
        } else {
            ReceiveFailureAction::Fail
        }),
{
    match failure.raw_os_error {
        Some(code) => if code == ENOBUFS {
            ReceiveFailureAction::Continue
        } else {
            ReceiveFailureAction::Fail
        },
        None => ReceiveFailureAction::Fail,
    }
}

} // verus!
