//! The proxy's error type and its rendering.

use vstd::prelude::*;
use crate::decimal::{decimal, push_decimal};
use crate::text::{push_str, string_from_chars};

verus! {

/// The kind of a failed I/O operation, as std's `io::ErrorKind` names it.
/// Kinds that std names beyond these are `Unlisted`.
#[derive(Clone, Copy, Debug, PartialEq, Eq, Structural)]
pub enum IoErrorKind {
    NotFound,
    PermissionDenied,
    ConnectionRefused,
    ConnectionReset,
    ConnectionAborted,
    NotConnected,
    AddrInUse,
    AddrNotAvailable,
    BrokenPipe,
    AlreadyExists,
    WouldBlock,
    InvalidInput,
    InvalidData,
    TimedOut,
    WriteZero,
    Interrupted,
    Unsupported,
    UnexpectedEof,
    Other,
    Unlisted,
}

/// A failed I/O operation: its kind, the OS error code when there is one,
/// and the text the error displays.
#[derive(Debug)]
pub struct IoFailure {
    pub kind: IoErrorKind,
    pub raw_os_error: Option<i32>,
    pub message: String,
}

/// Everything that can go wrong in the proxy.
#[derive(Debug)]
pub enum Error {
    /// A C string was asked for that holds a NUL byte at this position.
    CStringNulError(usize),
    /// The configuration is inconsistent.
    GlycerineInvalidConfig(String),
    /// A packet is not a well-formed IPv4 packet.
    GlycerineInvalidIpv4Packet,
    /// Shutdown was requested.
    GlycerineShutdown,
    /// A peer connected from an unexpected vsock context id.
    GlycerineUnexpectedCid,
    /// A network interface does not exist.
    GlycerineUnknownInterface,
    IoIpv4Tcp(IoFailure),
    IoIpv4Udp(IoFailure),
    IoNetlink(IoFailure),
    IoNfq(IoFailure),
    IoNftnl(IoFailure),
    IoVsock(IoFailure),
    /// An IPv4 network in CIDR notation could not be read; the text of the reason.
    IpNetworkError(String),
    /// JSON could not be written or read; the text of the reason.
    Json(String),
    /// A system call failed; the text of the errno.
    Nix(String),
    /// A netlink request failed; the text of the reason.
    Rtnetlink(String),
    /// An IP protocol other than TCP and UDP was asked for.
    UnsupportedProtocol(i32),
}

/// The name under which a protocol number is shown in messages, or its
/// decimal value when it has no name.
pub open spec fn protocol_name(p: i32) -> Seq<char> {
    if p == 1 {
        "IPPROTO_ICMP"@
    } else if p == 58 {
        "IPPROTO_ICMPV6"@
    } else if p == 6 {
        "IPPROTO_TCP"@
    } else if p == 17 {
        "IPPROTO_UDP"@
    } else if p == 262 {
        "IPPROTO_MPTCP"@
    } else if p == 33 {
        "IPPROTO_DCCP"@
    } else if p == 132 {
        "IPPROTO_SCTP"@
    } else if p == 136 {
        "IPPROTO_UDPLITE"@
    } else if p < 0 {
        "-"@ + decimal((-p) as nat)
    } else {
        decimal(p as nat)
    }
}

/// The text of an error.
pub open spec fn error_text(e: Error) -> Seq<char> {
    match e {
        Error::CStringNulError(pos) => "cstring-nul-error: nul byte found in provided data at position: "@
            + decimal(pos as nat),
        Error::GlycerineInvalidConfig(m) => "glycerine: invalid config: "@ + m@,
        Error::GlycerineInvalidIpv4Packet => "glycerine: invalid ipv4 packet"@,
        Error::GlycerineShutdown => "glycerine: shutdown"@,
        Error::GlycerineUnexpectedCid => "glycerine: unexpected peer cid"@,
        Error::GlycerineUnknownInterface => "glycerine: unknown interface"@,
        Error::IoIpv4Tcp(f) => "io-ipv4-tcp: "@ + f.message@,
        Error::IoIpv4Udp(f) => "io-ipv4-udp: "@ + f.message@,
        Error::IoNetlink(f) => "io-netlink: "@ + f.message@,
        Error::IoNfq(f) => "io-nfq: "@ + f.message@,
        Error::IoNftnl(f) => "io-nftnl: "@ + f.message@,
        Error::IoVsock(f) => "io-vsock: "@ + f.message@,
        Error::IpNetworkError(m) => "network: "@ + m@,
        Error::Json(m) => "json: "@ + m@,
        Error::Nix(m) => "nix: "@ + m@,
        Error::Rtnetlink(m) => "netlink: "@ + m@,
        Error::UnsupportedProtocol(p) => "unsupported-protocol: "@ + protocol_name(p),
    }
}

fn push_string(out: &mut Vec<char>, s: &String)
    ensures
        final(out)@ == old(out)@ + s@,
{
    push_str(out, s.as_str());
}

fn push_protocol_name(out: &mut Vec<char>, p: i32)
    ensures
        final(out)@ == old(out)@ + protocol_name(p),
{
    if p == 1 {
        push_str(out, "IPPROTO_ICMP");
    } else if p == 58 {
        push_str(out, "IPPROTO_ICMPV6");
    } else if p == 6 {
        push_str(out, "IPPROTO_TCP");
    } else if p == 17 {
        push_str(out, "IPPROTO_UDP");
    } else if p == 262 {
        push_str(out, "IPPROTO_MPTCP");
    } else if p == 33 {
        push_str(out, "IPPROTO_DCCP");
    } else if p == 132 {
        push_str(out, "IPPROTO_SCTP");
    } else if p == 136 {
        push_str(out, "IPPROTO_UDPLITE");
    } else if p < 0 {
        push_str(out, "-");
        let magnitude: u64 = (0 - (p as i64)) as u64;
        push_decimal(out, magnitude);
    } else {
        push_decimal(out, p as u64);
    }
}

impl Error {
    /// The text of the error, as it is logged.
    pub fn message(&self) -> (s: String)
        ensures
            s@ == error_text(*self),
    {
        let mut out: Vec<char> = Vec::new();
        match self {
            Error::CStringNulError(pos) => {
                push_str(&mut out, "cstring-nul-error: nul byte found in provided data at position: ");
                push_decimal(&mut out, *pos as u64);
            },
            Error::GlycerineInvalidConfig(m) => {
                push_str(&mut out, "glycerine: invalid config: ");
                push_string(&mut out, m);
            },
            Error::GlycerineInvalidIpv4Packet => push_str(&mut out, "glycerine: invalid ipv4 packet"),
            Error::GlycerineShutdown => push_str(&mut out, "glycerine: shutdown"),
            Error::GlycerineUnexpectedCid => push_str(&mut out, "glycerine: unexpected peer cid"),
            Error::GlycerineUnknownInterface => push_str(&mut out, "glycerine: unknown interface"),
            Error::IoIpv4Tcp(f) => {
                push_str(&mut out, "io-ipv4-tcp: ");
                push_string(&mut out, &f.message);
            },
            Error::IoIpv4Udp(f) => {
                push_str(&mut out, "io-ipv4-udp: ");
                push_string(&mut out, &f.message);
            },
            Error::IoNetlink(f) => {
                push_str(&mut out, "io-netlink: ");
                push_string(&mut out, &f.message);
            },
            Error::IoNfq(f) => {
                push_str(&mut out, "io-nfq: ");
                push_string(&mut out, &f.message);
            },
            Error::IoNftnl(f) => {
                push_str(&mut out, "io-nftnl: ");
                push_string(&mut out, &f.message);
            },
            Error::IoVsock(f) => {
                push_str(&mut out, "io-vsock: ");
                push_string(&mut out, &f.message);
            },
            Error::IpNetworkError(m) => {
                push_str(&mut out, "network: ");
                push_string(&mut out, m);
            },
            Error::Json(m) => {
                push_str(&mut out, "json: ");
                push_string(&mut out, m);
            },
            Error::Nix(m) => {
                push_str(&mut out, "nix: ");
                push_string(&mut out, m);
            },
            Error::Rtnetlink(m) => {
                push_str(&mut out, "netlink: ");
                push_string(&mut out, m);
            },
            Error::UnsupportedProtocol(p) => {
                push_str(&mut out, "unsupported-protocol: ");
                push_protocol_name(&mut out, *p);
            },
        }
        string_from_chars(out)
    }
}

} // verus!
