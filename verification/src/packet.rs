//! One-line, tcpdump-style summaries of IPv4 packets, and the header check
//! that decides how many bytes of a packet to read from a stream.

use vstd::prelude::*;
use crate::decimal::{decimal, push_decimal};
use crate::text::{push_str, string_from_chars};

verus! {

pub const IPV4_MIN_HEADER_LEN: usize = 20;
pub const TCP_MIN_HEADER_LEN: usize = 20;
pub const UDP_HEADER_LEN: usize = 8;

pub const IPPROTO_TCP: u8 = 6;
pub const IPPROTO_UDP: u8 = 17;

pub const TCP_FIN: u8 = 0x01;
pub const TCP_SYN: u8 = 0x02;
pub const TCP_RST: u8 = 0x04;
pub const TCP_PSH: u8 = 0x08;
pub const TCP_ACK: u8 = 0x10;
pub const TCP_URG: u8 = 0x20;
pub const TCP_ECE: u8 = 0x40;
pub const TCP_CWR: u8 = 0x80;

pub const TCPOPT_EOL: u8 = 0;
pub const TCPOPT_NOP: u8 = 1;
pub const TCPOPT_MSS: u8 = 2;
pub const TCPOPT_WSCALE: u8 = 3;
pub const TCPOPT_SACK_PERMITTED: u8 = 4;
pub const TCPOPT_SACK: u8 = 5;
pub const TCPOPT_TIMESTAMP: u8 = 8;

/// The largest IPv4 packet, in bytes.
pub const MAX_PACKET_SIZE: usize = 0xFFFF;

/// An IPv4 address, octet by octet.
#[derive(Clone, Copy, Debug, PartialEq, Eq, Structural)]
pub struct Ipv4Address(pub u8, pub u8, pub u8, pub u8);

/// The fields of an IPv4 header that a summary shows.
#[derive(Clone, Copy, Debug, PartialEq, Eq, Structural)]
pub struct Ipv4Packet {
    pub version: u8,
    pub header_len: usize,
    pub total_len: usize,
    pub protocol: u8,
    pub src: Ipv4Address,
    pub dst: Ipv4Address,
}

// ------------------------------------------------------------------------
// Specification

/// The big-endian 16-bit number at `s[i..i + 2]`.
pub open spec fn be16(s: Seq<u8>, i: int) -> nat {
    (s[i] as nat) * 256 + (s[i + 1] as nat)
}

/// The big-endian 32-bit number at `s[i..i + 4]`.
pub open spec fn be32(s: Seq<u8>, i: int) -> nat {
    be16(s, i) * 65536 + be16(s, i + 2)
}

/// The header fields of `p`, when `p` holds a whole IPv4 header of at least
/// the minimal length.
pub open spec fn spec_parse_ipv4(p: Seq<u8>) -> Option<Ipv4Packet> {
    if p.len() < 20 {
        None
    } else {
        let header_len = 4 * (p[0] % 16);
        if header_len < 20 || p.len() < header_len {
            None
        } else {
            Some(
                Ipv4Packet {
                    version: p[0] / 16,
                    header_len: header_len as usize,
                    total_len: be16(p, 2) as usize,
                    protocol: p[9],
                    src: Ipv4Address(p[12], p[13], p[14], p[15]),
                    dst: Ipv4Address(p[16], p[17], p[18], p[19]),
                },
            )
        }
    }
}

/// Dotted-decimal notation of an address.
pub open spec fn ipv4_text(a: Ipv4Address) -> Seq<char> {
    decimal(a.0 as nat) + "."@ + decimal(a.1 as nat) + "."@ + decimal(a.2 as nat) + "."@ + decimal(
        a.3 as nat,
    )
}

/// `IP <src> > <dst>`.
pub open spec fn endpoints_text(h: Ipv4Packet) -> Seq<char> {
    "IP "@ + ipv4_text(h.src) + " > "@ + ipv4_text(h.dst)
}

/// `IP <src>.<src port> > <dst>.<dst port>`.
pub open spec fn ports_text(h: Ipv4Packet, src_port: nat, dst_port: nat) -> Seq<char> {
    "IP "@ + ipv4_text(h.src) + "."@ + decimal(src_port) + " > "@ + ipv4_text(h.dst) + "."@
        + decimal(dst_port)
}

/// `label` when `bit` is set in `flags`.
pub open spec fn flag_text(flags: u8, bit: u8, label: Seq<char>) -> Seq<char> {
    if flags & bit != 0 {
        label
    } else {
        Seq::empty()
    }
}

/// The letters of the set TCP flags, in the order F S R P . U E W.
pub open spec fn flag_letters(flags: u8) -> Seq<char> {
    flag_text(flags, TCP_FIN, "F"@) + flag_text(flags, TCP_SYN, "S"@) + flag_text(
        flags,
        TCP_RST,
        "R"@,
    ) + flag_text(flags, TCP_PSH, "P"@) + flag_text(flags, TCP_ACK, "."@) + flag_text(
        flags,
        TCP_URG,
        "U"@,
    ) + flag_text(flags, TCP_ECE, "E"@) + flag_text(flags, TCP_CWR, "W"@)
}

/// The TCP flags as tcpdump shows them: their letters, or `none`.
pub open spec fn tcp_flags_text(flags: u8) -> Seq<char> {
    if flag_letters(flags).len() == 0 {
        "none"@
    } else {
        flag_letters(flags)
    }
}

/// The blocks of a selective-acknowledgement option, ` left:right` each.
pub open spec fn sack_blocks_text(data: Seq<u8>) -> Seq<char>
    decreases data.len(),
{
    if data.len() < 8 {
        Seq::empty()
    } else {
        " "@ + decimal(be32(data, 0)) + ":"@ + decimal(be32(data, 4)) + sack_blocks_text(
            data.subrange(8, data.len() as int),
        )
    }
}

/// One well-formed TCP option of kind `kind`, length `len` and payload `data`.
pub open spec fn tcp_option_text(kind: u8, len: u8, data: Seq<u8>) -> Seq<char> {
    if kind == TCPOPT_MSS && data.len() == 2 {
        "mss "@ + decimal(be16(data, 0))
    } else if kind == TCPOPT_WSCALE && data.len() == 1 {
        "wscale "@ + decimal(data[0] as nat)
    } else if kind == TCPOPT_SACK_PERMITTED && data.len() == 0 {
        "sackOK"@
    } else if kind == TCPOPT_SACK && data.len() % 8 == 0 {
        "sack"@ + sack_blocks_text(data)
    } else if kind == TCPOPT_TIMESTAMP && data.len() == 8 {
        "TS val "@ + decimal(be32(data, 0)) + " ecr "@ + decimal(be32(data, 4))
    } else {
        "unknown-"@ + decimal(kind as nat) + " "@ + decimal(len as nat)
    }
}

/// `unknown-<kind> malformed`.
pub open spec fn malformed_option_text(kind: u8) -> Seq<char> {
    "unknown-"@ + decimal(kind as nat) + " malformed"@
}

/// The TCP options in `opts`, comma separated; `first` tells whether no
/// option has been shown yet. An end-of-list or a malformed option ends
/// the list.
pub open spec fn tcp_options_text(opts: Seq<u8>, first: bool) -> Seq<char>
    decreases opts.len(),
{
    if opts.len() == 0 {
        Seq::empty()
    } else {
        let sep = if first {
            Seq::<char>::empty()
        } else {
            ","@
        };
        let kind = opts[0];
        if kind == TCPOPT_EOL {
            sep + "eol"@
        } else if kind == TCPOPT_NOP {
            sep + "nop"@ + tcp_options_text(opts.drop_first(), false)
        } else if opts.len() < 2 {
            sep + malformed_option_text(kind)
        } else {
            let len = opts[1];
            if len < 2 || opts.len() < len {
                sep + malformed_option_text(kind)
            } else {
                sep + tcp_option_text(kind, len, opts.subrange(2, len as int)) + tcp_options_text(
                    opts.subrange(len as int, opts.len() as int),
                    false,
                )
            }
        }
    }
}

/// The sequence-number part of a TCP summary.
pub open spec fn tcp_seq_text(seq: nat, data_len: nat, flags: u8) -> Seq<char> {
    if data_len > 0 {
        ", seq "@ + decimal(seq) + ":"@ + decimal((seq + data_len % 0x1_0000_0000) % 0x1_0000_0000)
    } else if flags & (TCP_FIN | TCP_SYN | TCP_RST) != 0 {
        ", seq "@ + decimal(seq)
    } else {
        Seq::empty()
    }
}

/// `IP <src> > <dst>: <proto>, truncated, length <len>`.
pub open spec fn truncated_text(h: Ipv4Packet, proto: Seq<char>, len: nat) -> Seq<char> {
    endpoints_text(h) + ": "@ + proto + ", truncated, length "@ + decimal(len)
}

/// `, ack <n>` when the ACK flag of the segment `p` is set.
pub open spec fn tcp_ack_text(p: Seq<u8>) -> Seq<char> {
    if p[13] & TCP_ACK != 0 {
        ", ack "@ + decimal(be32(p, 8))
    } else {
        Seq::empty()
    }
}

/// `, urg <n>` when the URG flag of the segment `p` is set.
pub open spec fn tcp_urg_text(p: Seq<u8>) -> Seq<char> {
    if p[13] & TCP_URG != 0 {
        ", urg "@ + decimal(be16(p, 18))
    } else {
        Seq::empty()
    }
}

/// `, options [...]` when the header of the segment `p` is longer than the minimum.
pub open spec fn tcp_options_part(p: Seq<u8>, header_len: int) -> Seq<char> {
    if header_len > 20 {
        ", options ["@ + tcp_options_text(p.subrange(20, header_len), true) + "]"@
    } else {
        Seq::empty()
    }
}

/// The ports, flags and sequence numbers of a TCP segment `p` with a
/// well-formed header of `header_len` bytes.
#[verifier::opaque]
pub open spec fn tcp_head_text(h: Ipv4Packet, p: Seq<u8>, header_len: int) -> Seq<char> {
    ports_text(h, be16(p, 0), be16(p, 2)) + ": Flags ["@ + tcp_flags_text(p[13]) + "]"@
        + tcp_seq_text(be32(p, 4), (p.len() - header_len) as nat, p[13])
}

/// The acknowledgement, window, urgent pointer, options and data length of
/// a TCP segment `p` with a well-formed header of `header_len` bytes.
#[verifier::opaque]
pub open spec fn tcp_tail_text(p: Seq<u8>, header_len: int) -> Seq<char> {
    tcp_ack_text(p) + ", win "@ + decimal(be16(p, 14)) + tcp_urg_text(p) + tcp_options_part(
        p,
        header_len,
    ) + ", length "@ + decimal((p.len() - header_len) as nat)
}

/// The summary of a TCP segment `p` with a well-formed header of `header_len` bytes.
pub open spec fn tcp_segment_text(h: Ipv4Packet, p: Seq<u8>, header_len: int) -> Seq<char> {
    tcp_head_text(h, p, header_len) + tcp_tail_text(p, header_len)
}

/// The summary of the TCP segment `payload` carried by the packet `h`.
pub open spec fn tcp_text(h: Ipv4Packet, payload: Seq<u8>) -> Seq<char> {
    if payload.len() < 20 {
        truncated_text(h, "TCP"@, payload.len())
    } else {
        let header_len = 4 * (payload[12] / 16);
        if header_len < 20 || payload.len() < header_len {
            truncated_text(h, "TCP"@, payload.len())
        } else {
            tcp_segment_text(h, payload, header_len)
        }
    }
}

/// The summary of the UDP datagram `payload` carried by the packet `h`.
pub open spec fn udp_text(h: Ipv4Packet, payload: Seq<u8>) -> Seq<char> {
    if payload.len() < 8 {
        truncated_text(h, "UDP"@, payload.len())
    } else {
        let length = be16(payload, 4);
        ports_text(h, be16(payload, 0), be16(payload, 2)) + ": UDP, length "@ + decimal(
            if length >= 8 {
                (length - 8) as nat
            } else {
                0
            },
        )
    }
}

/// The one-line summary of the bytes `p`, read as an IPv4 packet.
pub open spec fn payload_text(p: Seq<u8>) -> Seq<char> {
    match spec_parse_ipv4(p) {
        None => "IP truncated, length "@ + decimal(p.len()),
        Some(h) => if h.version != 4 {
            "IP"@ + decimal(h.version as nat) + " packet, length "@ + decimal(p.len())
        } else if h.total_len < h.header_len {
            endpoints_text(h) + ": invalid total length "@ + decimal(h.total_len as nat)
        } else if p.len() < h.total_len {
            endpoints_text(h) + ": truncated-ip - "@ + decimal((h.total_len - p.len()) as nat)
                + " bytes missing"@
        } else {
            let payload = p.subrange(h.header_len as int, h.total_len as int);
            if h.protocol == IPPROTO_TCP {
                tcp_text(h, payload)
            } else if h.protocol == IPPROTO_UDP {
                udp_text(h, payload)
            } else {
                endpoints_text(h) + ": ip-proto-"@ + decimal(h.protocol as nat) + ", length "@
                    + decimal(payload.len())
            }
        },
    }
}

} // verus!

verus! {

broadcast use vstd::slice::group_slice_axioms;

// ------------------------------------------------------------------------
// Implementation

fn read_be16(s: &[u8], i: usize) -> (v: u64)
    requires
        i + 2 <= s.len(),
    ensures
        v == be16(s@, i as int),
        v < 0x1_0000,
{
    (s[i] as u64) * 256 + (s[i + 1] as u64)
}

fn read_be32(s: &[u8], i: usize) -> (v: u64)
    requires
        i + 4 <= s.len(),
    ensures
        v == be32(s@, i as int),
        v < 0x1_0000_0000,
{
    read_be16(s, i) * 65536 + read_be16(s, i + 2)
}

impl Ipv4Packet {
    /// Reads the header fields of `packet`; `None` when it is shorter than
    /// a minimal header or than the length its header claims.
    pub fn parse(packet: &[u8]) -> (r: Option<Ipv4Packet>)
        ensures
            r == spec_parse_ipv4(packet@),
    {
        if packet.len() < IPV4_MIN_HEADER_LEN {
            return None;
        }
        let version = packet[0] / 16;
        let header_len: usize = 4 * ((packet[0] % 16) as usize);
        if header_len < IPV4_MIN_HEADER_LEN || packet.len() < header_len {
            return None;
        }
        Some(
            Ipv4Packet {
                version,
                header_len,
                total_len: read_be16(packet, 2) as usize,
                protocol: packet[9],
                src: Ipv4Address(packet[12], packet[13], packet[14], packet[15]),
                dst: Ipv4Address(packet[16], packet[17], packet[18], packet[19]),
            },
        )
    }
}

fn push_ipv4(out: &mut Vec<char>, a: Ipv4Address)
    ensures
        final(out)@ == old(out)@ + ipv4_text(a),
{
    push_decimal(out, a.0 as u64);
    push_str(out, ".");
    push_decimal(out, a.1 as u64);
    push_str(out, ".");
    push_decimal(out, a.2 as u64);
    push_str(out, ".");
    push_decimal(out, a.3 as u64);
    proof {
        assert(final(out)@ =~= old(out)@ + ipv4_text(a));
    }
}

fn push_endpoints(out: &mut Vec<char>, h: &Ipv4Packet)
    ensures
        final(out)@ == old(out)@ + endpoints_text(*h),
{
    push_str(out, "IP ");
    push_ipv4(out, h.src);
    push_str(out, " > ");
    push_ipv4(out, h.dst);
    proof {
        assert(final(out)@ =~= old(out)@ + endpoints_text(*h));
    }
}

fn push_ports(out: &mut Vec<char>, h: &Ipv4Packet, src_port: u64, dst_port: u64)
    ensures
        final(out)@ == old(out)@ + ports_text(*h, src_port as nat, dst_port as nat),
{
    push_str(out, "IP ");
    push_ipv4(out, h.src);
    push_str(out, ".");
    push_decimal(out, src_port);
    push_str(out, " > ");
    push_ipv4(out, h.dst);
    push_str(out, ".");
    push_decimal(out, dst_port);
    proof {
        assert(final(out)@ =~= old(out)@ + ports_text(*h, src_port as nat, dst_port as nat));
    }
}

fn push_truncated(out: &mut Vec<char>, h: &Ipv4Packet, proto: &str, len: usize)
    ensures
        final(out)@ == old(out)@ + truncated_text(*h, proto@, len as nat),
{
    push_endpoints(out, h);
    push_str(out, ": ");
    push_str(out, proto);
    push_str(out, ", truncated, length ");
    push_decimal(out, len as u64);
    proof {
        assert(final(out)@ =~= old(out)@ + truncated_text(*h, proto@, len as nat));
    }
}

/// TCP flags, shown as tcpdump shows them.
pub struct TcpFlags(pub u8);

impl TcpFlags {
    fn push_flag(out: &mut Vec<char>, flags: u8, bit: u8, label: &str)
        ensures
            final(out)@ == old(out)@ + flag_text(flags, bit, label@),
    {
        if flags & bit != 0 {
            push_str(out, label);
        } else {
            assert(old(out)@ + Seq::<char>::empty() =~= old(out)@);
        }
    }

    /// Appends the rendering of the flags to `out`.
    pub fn write_to(&self, out: &mut Vec<char>)
        ensures
            final(out)@ == old(out)@ + tcp_flags_text(self.0),
    {
        let flags = self.0;
        let mut letters: Vec<char> = Vec::new();
        TcpFlags::push_flag(&mut letters, flags, TCP_FIN, "F");
        TcpFlags::push_flag(&mut letters, flags, TCP_SYN, "S");
        TcpFlags::push_flag(&mut letters, flags, TCP_RST, "R");
        TcpFlags::push_flag(&mut letters, flags, TCP_PSH, "P");
        TcpFlags::push_flag(&mut letters, flags, TCP_ACK, ".");
        TcpFlags::push_flag(&mut letters, flags, TCP_URG, "U");
        TcpFlags::push_flag(&mut letters, flags, TCP_ECE, "E");
        TcpFlags::push_flag(&mut letters, flags, TCP_CWR, "W");
        assert(letters@ =~= flag_letters(flags));
        if letters.len() == 0 {
            push_str(out, "none");
        } else {
            crate::text::push_chars(out, &letters);
        }
    }

    /// The rendering of the flags.
    pub fn to_string(&self) -> (s: String)
        ensures
            s@ == tcp_flags_text(self.0),
    {
        let mut out: Vec<char> = Vec::new();
        self.write_to(&mut out);
        assert(out@ =~= tcp_flags_text(self.0));
        string_from_chars(out)
    }
}

fn push_sack_blocks(out: &mut Vec<char>, data: &[u8])
    ensures
        final(out)@ == old(out)@ + sack_blocks_text(data@),
    decreases data@.len(),
{
    if data.len() < 8 {
        assert(old(out)@ + sack_blocks_text(data@) =~= old(out)@);
        return;
    }
    push_str(out, " ");
    push_decimal(out, read_be32(data, 0));
    push_str(out, ":");
    push_decimal(out, read_be32(data, 4));
    let rest = vstd::slice::slice_subrange(data, 8, data.len());
    push_sack_blocks(out, rest);
    proof {
        assert(final(out)@ =~= old(out)@ + sack_blocks_text(data@));
    }
}

fn push_tcp_option(out: &mut Vec<char>, kind: u8, len: u8, data: &[u8])
    ensures
        final(out)@ == old(out)@ + tcp_option_text(kind, len, data@),
{
    if kind == TCPOPT_MSS && data.len() == 2 {
        push_str(out, "mss ");
        let v = read_be16(data, 0);
        push_decimal(out, v);
    } else if kind == TCPOPT_WSCALE && data.len() == 1 {
        push_str(out, "wscale ");
        push_decimal(out, data[0] as u64);
    } else if kind == TCPOPT_SACK_PERMITTED && data.len() == 0 {
        push_str(out, "sackOK");
    } else if kind == TCPOPT_SACK && data.len() % 8 == 0 {
        push_str(out, "sack");
        push_sack_blocks(out, data);
    } else if kind == TCPOPT_TIMESTAMP && data.len() == 8 {
        push_str(out, "TS val ");
        push_decimal(out, read_be32(data, 0));
        push_str(out, " ecr ");
        push_decimal(out, read_be32(data, 4));
    } else {
        push_str(out, "unknown-");
        push_decimal(out, kind as u64);
        push_str(out, " ");
        push_decimal(out, len as u64);
    }
    proof {
        assert(final(out)@ =~= old(out)@ + tcp_option_text(kind, len, data@));
    }
}

fn push_malformed(out: &mut Vec<char>, kind: u8)
    ensures
        final(out)@ == old(out)@ + malformed_option_text(kind),
{
    push_str(out, "unknown-");
    push_decimal(out, kind as u64);
    push_str(out, " malformed");
    proof {
        assert(final(out)@ =~= old(out)@ + malformed_option_text(kind));
    }
}

/// The options part of a TCP header, shown as tcpdump shows them.
pub struct TcpOptions<'a>(pub &'a [u8]);

impl<'a> TcpOptions<'a> {
    fn write_from(out: &mut Vec<char>, opts: &[u8], first: bool)
        ensures
            final(out)@ == old(out)@ + tcp_options_text(opts@, first),
        decreases opts@.len(),
    {
        let n = opts.len();
        if n == 0 {
            assert(old(out)@ + tcp_options_text(opts@, first) =~= old(out)@);
            return;
        }
        let ghost sep = if first {
            Seq::<char>::empty()
        } else {
            ","@
        };
        if !first {
            push_str(out, ",");
        }
        assert(out@ =~= old(out)@ + sep);
        let kind = opts[0];
        if kind == TCPOPT_EOL {
            push_str(out, "eol");
        } else if kind == TCPOPT_NOP {
            push_str(out, "nop");
            let rest = vstd::slice::slice_subrange(opts, 1, n);
            assert(rest@ =~= opts@.drop_first());
            TcpOptions::write_from(out, rest, false);
        } else if n < 2 {
            push_malformed(out, kind);
        } else {
            let option_len = opts[1];
            if option_len < 2 || n < option_len as usize {
                push_malformed(out, kind);
            } else {
                let data = vstd::slice::slice_subrange(opts, 2, option_len as usize);
                push_tcp_option(out, kind, option_len, data);
                let rest = vstd::slice::slice_subrange(opts, option_len as usize, n);
                TcpOptions::write_from(out, rest, false);
            }
        }
        proof {
            assert(final(out)@ =~= old(out)@ + tcp_options_text(opts@, first));
        }
    }

    /// Appends the rendering of the options to `out`.
    pub fn write_to(&self, out: &mut Vec<char>)
        ensures
            final(out)@ == old(out)@ + tcp_options_text(self.0@, true),
    {
        TcpOptions::write_from(out, self.0, true);
    }

    /// The rendering of the options.
    pub fn to_string(&self) -> (s: String)
        ensures
            s@ == tcp_options_text(self.0@, true),
    {
        let mut out: Vec<char> = Vec::new();
        self.write_to(&mut out);
        assert(out@ =~= tcp_options_text(self.0@, true));
        string_from_chars(out)
    }
}

} // verus!

verus! {

fn push_tcp_seq(out: &mut Vec<char>, seq: u64, data_len: usize, flags: u8)
    requires
        seq < 0x1_0000_0000,
    ensures
        final(out)@ == old(out)@ + tcp_seq_text(seq as nat, data_len as nat, flags),
{
    if data_len > 0 {
        push_str(out, ", seq ");
        push_decimal(out, seq);
        push_str(out, ":");
        let wrapped_len: u64 = (data_len as u64) % 0x1_0000_0000;
        push_decimal(out, (seq + wrapped_len) % 0x1_0000_0000);
    } else if flags & (TCP_FIN | TCP_SYN | TCP_RST) != 0 {
        push_str(out, ", seq ");
        push_decimal(out, seq);
    }
    proof {
        assert(out@ =~= old(out)@ + tcp_seq_text(seq as nat, data_len as nat, flags));
    }
}

fn push_tcp_flags(out: &mut Vec<char>, flags: u8)
    ensures
        final(out)@ == old(out)@ + ": Flags ["@ + tcp_flags_text(flags) + "]"@,
{
    push_str(out, ": Flags [");
    TcpFlags(flags).write_to(out);
    push_str(out, "]");
    proof {
        assert(out@ =~= old(out)@ + ": Flags ["@ + tcp_flags_text(flags) + "]"@);
    }
}

#[verifier::rlimit(30)]
fn push_tcp_head(out: &mut Vec<char>, packet: &Ipv4Packet, payload: &[u8], header_len: usize)
    requires
        20 <= header_len <= payload@.len(),
    ensures
        final(out)@ == old(out)@ + tcp_head_text(*packet, payload@, header_len as int),
{
    reveal(tcp_head_text);
    let flags = payload[13];
    let seq = read_be32(payload, 4);
    let data_len = payload.len() - header_len;
    push_ports(out, packet, read_be16(payload, 0), read_be16(payload, 2));
    let ghost a = out@;
    push_tcp_flags(out, flags);
    let ghost b = out@;
    push_tcp_seq(out, seq, data_len, flags);
    proof {
        assert(out@ =~= old(out)@ + ports_text(*packet, be16(payload@, 0), be16(payload@, 2))
            + ": Flags ["@ + tcp_flags_text(flags) + "]"@ + tcp_seq_text(
            seq as nat,
            data_len as nat,
            flags,
        ));
    }
}

fn push_tcp_ack(out: &mut Vec<char>, payload: &[u8])
    requires
        20 <= payload@.len(),
    ensures
        final(out)@ == old(out)@ + tcp_ack_text(payload@),
{
    if payload[13] & TCP_ACK != 0 {
        push_str(out, ", ack ");
        push_decimal(out, read_be32(payload, 8));
    }
    proof {
        assert(out@ =~= old(out)@ + tcp_ack_text(payload@));
    }
}

fn push_tcp_urg(out: &mut Vec<char>, payload: &[u8])
    requires
        20 <= payload@.len(),
    ensures
        final(out)@ == old(out)@ + tcp_urg_text(payload@),
{
    if payload[13] & TCP_URG != 0 {
        push_str(out, ", urg ");
        push_decimal(out, read_be16(payload, 18));
    }
    proof {
        assert(out@ =~= old(out)@ + tcp_urg_text(payload@));
    }
}

fn push_tcp_options_part(out: &mut Vec<char>, payload: &[u8], header_len: usize)
    requires
        20 <= header_len <= payload@.len(),
    ensures
        final(out)@ == old(out)@ + tcp_options_part(payload@, header_len as int),
{
    if header_len > TCP_MIN_HEADER_LEN {
        push_str(out, ", options [");
        let options = vstd::slice::slice_subrange(payload, TCP_MIN_HEADER_LEN, header_len);
        TcpOptions(options).write_to(out);
        push_str(out, "]");
    }
    proof {
        assert(out@ =~= old(out)@ + tcp_options_part(payload@, header_len as int));
    }
}

#[verifier::rlimit(30)]
fn push_tcp_tail(out: &mut Vec<char>, payload: &[u8], header_len: usize)
    requires
        20 <= header_len <= payload@.len(),
    ensures
        final(out)@ == old(out)@ + tcp_tail_text(payload@, header_len as int),
{
    reveal(tcp_tail_text);
    push_tcp_ack(out, payload);
    push_str(out, ", win ");
    push_decimal(out, read_be16(payload, 14));
    push_tcp_urg(out, payload);
    push_tcp_options_part(out, payload, header_len);
    push_str(out, ", length ");
    push_decimal(out, (payload.len() - header_len) as u64);
    proof {
        assert(out@ =~= old(out)@ + tcp_ack_text(payload@) + ", win "@ + decimal(
            be16(payload@, 14),
        ) + tcp_urg_text(payload@) + tcp_options_part(payload@, header_len as int)
            + ", length "@ + decimal((payload@.len() - header_len) as nat));
    }
}

/// Appends the summary of the TCP segment `payload`, carried by `packet`.
pub fn write_tcp(out: &mut Vec<char>, packet: &Ipv4Packet, payload: &[u8])
    ensures
        final(out)@ == old(out)@ + tcp_text(*packet, payload@),
{
    if payload.len() < TCP_MIN_HEADER_LEN {
        push_truncated(out, packet, "TCP", payload.len());
        return;
    }
    let header_len: usize = 4 * ((payload[12] / 16) as usize);
    if header_len < TCP_MIN_HEADER_LEN || payload.len() < header_len {
        push_truncated(out, packet, "TCP", payload.len());
        return;
    }
    push_tcp_head(out, packet, payload, header_len);
    push_tcp_tail(out, payload, header_len);
    proof {
        assert(out@ =~= old(out)@ + tcp_segment_text(*packet, payload@, header_len as int));
    }
}

/// Appends the summary of the UDP datagram `payload`, carried by `packet`.
pub fn write_udp(out: &mut Vec<char>, packet: &Ipv4Packet, payload: &[u8])
    ensures
        final(out)@ == old(out)@ + udp_text(*packet, payload@),
{
    if payload.len() < UDP_HEADER_LEN {
        push_truncated(out, packet, "UDP", payload.len());
        return;
    }
    let src_port = read_be16(payload, 0);
    let dst_port = read_be16(payload, 2);
    let length = read_be16(payload, 4);
    let data_len: u64 = if length >= UDP_HEADER_LEN as u64 {
        length - UDP_HEADER_LEN as u64
    } else {
        0
    };
    push_ports(out, packet, src_port, dst_port);
    push_str(out, ": UDP, length ");
    push_decimal(out, data_len);
    proof {
        assert(out@ =~= old(out)@ + udp_text(*packet, payload@));
    }
}

/// The bytes of a packet, shown as a one-line summary.
pub struct DumpPayload<'a>(pub &'a [u8]);

impl<'a> DumpPayload<'a> {
    /// Appends the summary of the packet to `out`.
    pub fn write_to(&self, out: &mut Vec<char>)
        ensures
            final(out)@ == old(out)@ + payload_text(self.0@),
    {
        let bytes = self.0;
        let packet = match Ipv4Packet::parse(bytes) {
            None => {
                push_str(out, "IP truncated, length ");
                push_decimal(out, bytes.len() as u64);
                proof {
                    assert(out@ =~= old(out)@ + payload_text(bytes@));
                }
                return;
            },
            Some(packet) => packet,
        };
        if packet.version != 4 {
            push_str(out, "IP");
            push_decimal(out, packet.version as u64);
            push_str(out, " packet, length ");
            push_decimal(out, bytes.len() as u64);
        } else if packet.total_len < packet.header_len {
            push_endpoints(out, &packet);
            push_str(out, ": invalid total length ");
            push_decimal(out, packet.total_len as u64);
        } else if bytes.len() < packet.total_len {
            push_endpoints(out, &packet);
            push_str(out, ": truncated-ip - ");
            push_decimal(out, (packet.total_len - bytes.len()) as u64);
            push_str(out, " bytes missing");
        } else {
            let payload = vstd::slice::slice_subrange(bytes, packet.header_len, packet.total_len);
            if packet.protocol == IPPROTO_TCP {
                write_tcp(out, &packet, payload);
            } else if packet.protocol == IPPROTO_UDP {
                write_udp(out, &packet, payload);
            } else {
                push_endpoints(out, &packet);
                push_str(out, ": ip-proto-");
                push_decimal(out, packet.protocol as u64);
                push_str(out, ", length ");
                push_decimal(out, payload.len() as u64);
            }
        }
        proof {
            assert(out@ =~= old(out)@ + payload_text(bytes@));
        }
    }

    /// The one-line summary of the packet.
    pub fn to_string(&self) -> (s: String)
        ensures
            s@ == payload_text(self.0@),
    {
        let mut out: Vec<char> = Vec::new();
        self.write_to(&mut out);
        assert(out@ =~= payload_text(self.0@));
        string_from_chars(out)
    }
}

} // verus!

verus! {

/// Law: the TCP flags show as `none` exactly when no flag bit is set;
/// otherwise they show as the letters of the set flags.
pub proof fn lemma_tcp_flags_none(flags: u8)
    ensures
        flags == 0 ==> tcp_flags_text(flags) == "none"@,
        flags != 0 ==> tcp_flags_text(flags) == flag_letters(flags) && flag_letters(flags).len()
            > 0,
{
    reveal_strlit("F");
    reveal_strlit("S");
    reveal_strlit("R");
    reveal_strlit("P");
    reveal_strlit(".");
    reveal_strlit("U");
    reveal_strlit("E");
    reveal_strlit("W");
    assert(flags == 0 <==> (flags & 0x01 == 0 && flags & 0x02 == 0 && flags & 0x04 == 0 && flags
        & 0x08 == 0 && flags & 0x10 == 0 && flags & 0x20 == 0 && flags & 0x40 == 0 && flags & 0x80
        == 0)) by (bit_vector);
}

/// Law: bytes too short to hold an IPv4 header are shown as a truncated
/// packet with their length.
pub proof fn lemma_short_payload_truncated(p: Seq<u8>)
    requires
        p.len() < 20,
    ensures
        payload_text(p) == "IP truncated, length "@ + decimal(p.len()),
{
}


/// The number of commas in `s`.
pub open spec fn comma_count(s: Seq<char>) -> nat
    decreases s.len(),
{
    if s.len() == 0 {
        0
    } else {
        comma_count(s.drop_last()) + if s.last() == ',' {
            1nat
        } else {
            0nat
        }
    }
}

/// Whether no character of `s` is a comma.
pub open spec fn comma_free(s: Seq<char>) -> bool {
    forall|i: int| 0 <= i < s.len() ==> #[trigger] s[i] != ','
}

proof fn lemma_comma_count_add(a: Seq<char>, b: Seq<char>)
    ensures
        comma_count(a + b) == comma_count(a) + comma_count(b),
    decreases b.len(),
{
    if b.len() > 0 {
        assert((a + b).drop_last() =~= a + b.drop_last());
        lemma_comma_count_add(a, b.drop_last());
    } else {
        assert(a + b =~= a);
    }
}

proof fn lemma_comma_free_count(s: Seq<char>)
    requires
        comma_free(s),
    ensures
        comma_count(s) == 0,
    decreases s.len(),
{
    if s.len() > 0 {
        assert(s.last() == s[s.len() - 1]);
        lemma_comma_free_count(s.drop_last());
    }
}

proof fn lemma_comma_free_add(a: Seq<char>, b: Seq<char>)
    requires
        comma_free(a),
        comma_free(b),
    ensures
        comma_free(a + b),
{
    assert forall|i: int| 0 <= i < (a + b).len() implies #[trigger] (a + b)[i] != ',' by {
        if i < a.len() {
            assert((a + b)[i] == a[i]);
        } else {
            assert((a + b)[i] == b[i - a.len()]);
        }
    }
}

proof fn lemma_decimal_comma_free(n: nat)
    ensures
        comma_free(decimal(n)),
{
    crate::decimal::lemma_decimal_digits(n);
    assert forall|i: int| 0 <= i < decimal(n).len() implies #[trigger] decimal(n)[i] != ',' by {
        assert(crate::decimal::is_digit(decimal(n)[i]));
    }
}

proof fn lemma_sack_blocks_comma_free(data: Seq<u8>)
    ensures
        comma_free(sack_blocks_text(data)),
    decreases data.len(),
{
    if data.len() >= 8 {
        reveal_strlit(" ");
        reveal_strlit(":");
        lemma_decimal_comma_free(be32(data, 0));
        lemma_decimal_comma_free(be32(data, 4));
        lemma_sack_blocks_comma_free(data.subrange(8, data.len() as int));
        lemma_comma_free_add(" "@, decimal(be32(data, 0)));
        lemma_comma_free_add(" "@ + decimal(be32(data, 0)), ":"@);
        lemma_comma_free_add(" "@ + decimal(be32(data, 0)) + ":"@, decimal(be32(data, 4)));
        lemma_comma_free_add(
            " "@ + decimal(be32(data, 0)) + ":"@ + decimal(be32(data, 4)),
            sack_blocks_text(data.subrange(8, data.len() as int)),
        );
    } else {
        assert(comma_free(Seq::<char>::empty()));
    }
}

proof fn lemma_option_comma_free(kind: u8, len: u8, data: Seq<u8>)
    ensures
        comma_free(tcp_option_text(kind, len, data)),
        comma_free(malformed_option_text(kind)),
{
    reveal_strlit("mss ");
    reveal_strlit("wscale ");
    reveal_strlit("sackOK");
    reveal_strlit("sack");
    reveal_strlit("TS val ");
    reveal_strlit(" ecr ");
    reveal_strlit("unknown-");
    reveal_strlit(" ");
    reveal_strlit(" malformed");
    lemma_decimal_comma_free(kind as nat);
    lemma_comma_free_add("unknown-"@, decimal(kind as nat));
    lemma_comma_free_add("unknown-"@ + decimal(kind as nat), " malformed"@);
    if kind == TCPOPT_MSS && data.len() == 2 {
        lemma_decimal_comma_free(be16(data, 0));
        lemma_comma_free_add("mss "@, decimal(be16(data, 0)));
    } else if kind == TCPOPT_WSCALE && data.len() == 1 {
        lemma_decimal_comma_free(data[0] as nat);
        lemma_comma_free_add("wscale "@, decimal(data[0] as nat));
    } else if kind == TCPOPT_SACK_PERMITTED && data.len() == 0 {
    } else if kind == TCPOPT_SACK && data.len() % 8 == 0 {
        lemma_sack_blocks_comma_free(data);
        lemma_comma_free_add("sack"@, sack_blocks_text(data));
    } else if kind == TCPOPT_TIMESTAMP && data.len() == 8 {
        lemma_decimal_comma_free(be32(data, 0));
        lemma_decimal_comma_free(be32(data, 4));
        lemma_comma_free_add("TS val "@, decimal(be32(data, 0)));
        lemma_comma_free_add("TS val "@ + decimal(be32(data, 0)), " ecr "@);
        lemma_comma_free_add("TS val "@ + decimal(be32(data, 0)) + " ecr "@, decimal(be32(data, 4)));
    } else {
        lemma_decimal_comma_free(len as nat);
        lemma_comma_free_add("unknown-"@ + decimal(kind as nat), " "@);
        lemma_comma_free_add("unknown-"@ + decimal(kind as nat) + " "@, decimal(len as nat));
    }
}

/// Law: an end-of-list option ends the options shown; whatever bytes
/// follow it are not shown.
pub proof fn lemma_tcp_options_end_at_eol(rest: Seq<u8>, first: bool)
    ensures
        tcp_options_text(seq![TCPOPT_EOL] + rest, first) == (if first {
            Seq::<char>::empty()
        } else {
            ","@
        }) + "eol"@,
{
    assert((seq![TCPOPT_EOL] + rest)[0] == TCPOPT_EOL);
}

/// Law: the options shown are separated by single commas, and no option
/// text holds one, so there are at most as many options shown as bytes:
/// the commas number at most the bytes, one fewer for the first option.
pub proof fn lemma_tcp_options_commas(opts: Seq<u8>, first: bool)
    ensures
        comma_count(tcp_options_text(opts, first)) + (if first && opts.len() > 0 {
            1nat
        } else {
            0nat
        }) <= opts.len(),
    decreases opts.len(),
{
    reveal_strlit(",");
    reveal_strlit("eol");
    reveal_strlit("nop");
    if opts.len() > 0 {
        let sep = if first {
            Seq::<char>::empty()
        } else {
            ","@
        };
        assert(comma_count(sep) == if first {
            0nat
        } else {
            1nat
        }) by {
            if !first {
                assert(sep.drop_last() =~= Seq::<char>::empty());
                assert(comma_count(Seq::<char>::empty()) == 0);
                assert(sep.last() == ',');
            }
        }
        let kind = opts[0];
        lemma_option_comma_free(kind, 0, Seq::empty());
        if kind == TCPOPT_EOL {
            lemma_comma_free_count("eol"@);
            lemma_comma_count_add(sep, "eol"@);
        } else if kind == TCPOPT_NOP {
            lemma_tcp_options_commas(opts.drop_first(), false);
            lemma_comma_free_count("nop"@);
            lemma_comma_count_add(sep, "nop"@);
            lemma_comma_count_add(sep + "nop"@, tcp_options_text(opts.drop_first(), false));
        } else if opts.len() < 2 || opts[1] < 2 || opts.len() < opts[1] {
            lemma_comma_free_count(malformed_option_text(kind));
            lemma_comma_count_add(sep, malformed_option_text(kind));
        } else {
            let len = opts[1];
            let data = opts.subrange(2, len as int);
            let rest = opts.subrange(len as int, opts.len() as int);
            lemma_option_comma_free(kind, len, data);
            lemma_comma_free_count(tcp_option_text(kind, len, data));
            lemma_tcp_options_commas(rest, false);
            lemma_comma_count_add(sep, tcp_option_text(kind, len, data));
            lemma_comma_count_add(sep + tcp_option_text(kind, len, data), tcp_options_text(rest, false));
        }
    }
}

/// Whether reading the options `opts` from their start reaches an
/// end-of-list option at an option boundary.
pub open spec fn reaches_eol(opts: Seq<u8>) -> bool
    decreases opts.len(),
{
    if opts.len() == 0 {
        false
    } else if opts[0] == TCPOPT_EOL {
        true
    } else if opts[0] == TCPOPT_NOP {
        reaches_eol(opts.drop_first())
    } else if opts.len() < 2 || opts[1] < 2 || opts.len() < opts[1] {
        false
    } else {
        reaches_eol(opts.subrange(opts[1] as int, opts.len() as int))
    }
}

/// Whether `t` ends with `eol`.
pub open spec fn ends_with_eol(t: Seq<char>) -> bool {
    t.len() >= 3 && t.subrange(t.len() - 3, t.len() as int) == "eol"@
}

proof fn lemma_ends_with_eol_after(a: Seq<char>, b: Seq<char>)
    requires
        ends_with_eol(b),
    ensures
        ends_with_eol(a + b),
{
    assert((a + b).subrange((a + b).len() - 3, (a + b).len() as int) =~= b.subrange(
        b.len() - 3,
        b.len() as int,
    ));
}

/// Law: once the options reach an end-of-list option at an option
/// boundary, the text ends with `eol`, and bytes after the options change
/// nothing of it.
pub proof fn lemma_tcp_options_stop_at_eol(opts: Seq<u8>, rest: Seq<u8>, first: bool)
    requires
        reaches_eol(opts),
    ensures
        tcp_options_text(opts + rest, first) == tcp_options_text(opts, first),
        ends_with_eol(tcp_options_text(opts, first)),
    decreases opts.len(),
{
    reveal_strlit("eol");
    reveal_strlit(",");
    let all = opts + rest;
    let sep = if first {
        Seq::<char>::empty()
    } else {
        ","@
    };
    assert(all[0] == opts[0]);
    if opts[0] == TCPOPT_EOL {
        assert("eol"@.subrange(0, 3) =~= "eol"@);
        assert(ends_with_eol("eol"@));
        lemma_ends_with_eol_after(sep, "eol"@);
    } else if opts[0] == TCPOPT_NOP {
        assert(all.drop_first() =~= opts.drop_first() + rest);
        lemma_tcp_options_stop_at_eol(opts.drop_first(), rest, false);
        lemma_ends_with_eol_after(sep + "nop"@, tcp_options_text(opts.drop_first(), false));
    } else {
        let len = opts[1];
        assert(all[1] == opts[1]);
        assert(all.subrange(2, len as int) =~= opts.subrange(2, len as int));
        assert(all.subrange(len as int, all.len() as int) =~= opts.subrange(len as int, opts.len() as int)
            + rest);
        let tail = opts.subrange(len as int, opts.len() as int);
        lemma_tcp_options_stop_at_eol(tail, rest, false);
        lemma_ends_with_eol_after(
            sep + tcp_option_text(opts[0], len, opts.subrange(2, len as int)),
            tcp_options_text(tail, false),
        );
    }
}

/// Two commas at positions `i` and `i + 1` of `t`.
pub open spec fn comma_pair(t: Seq<char>, i: int) -> bool {
    t[i] == ',' && t[i + 1] == ','
}

/// Whether no two commas of `t` stand next to each other.
pub open spec fn no_double_comma(t: Seq<char>) -> bool {
    forall|i: int| 0 <= i < t.len() - 1 ==> !#[trigger] comma_pair(t, i)
}

/// Whether `t` is empty or a list joined by single commas: it neither
/// starts nor ends with a comma, and no two commas stand together.
pub open spec fn joined_by_single_commas(t: Seq<char>) -> bool {
    t.len() == 0 || (t[0] != ',' && t.last() != ',' && no_double_comma(t))
}

proof fn lemma_no_double_comma_add(a: Seq<char>, b: Seq<char>)
    requires
        no_double_comma(a),
        no_double_comma(b),
        !(a.len() > 0 && b.len() > 0 && a.last() == ',' && b[0] == ','),
    ensures
        no_double_comma(a + b),
{
    let t = a + b;
    assert forall|i: int| 0 <= i < t.len() - 1 implies !#[trigger] comma_pair(t, i) by {
        if i + 1 < a.len() {
            assert(t[i] == a[i] && t[i + 1] == a[i + 1]);
            assert(!comma_pair(a, i));
        } else if i >= a.len() {
            assert(t[i] == b[i - a.len()] && t[i + 1] == b[i - a.len() + 1]);
            assert(!comma_pair(b, i - a.len()));
        } else {
            assert(t[i] == a.last() && t[i + 1] == b[0]);
        }
    }
}

proof fn lemma_option_nonempty(kind: u8, len: u8, data: Seq<u8>)
    ensures
        tcp_option_text(kind, len, data).len() > 0,
        malformed_option_text(kind).len() > 0,
{
    reveal_strlit("mss ");
    reveal_strlit("wscale ");
    reveal_strlit("sackOK");
    reveal_strlit("sack");
    reveal_strlit("TS val ");
    reveal_strlit("unknown-");
}

/// One entry of an options list: the separator `sep` for it, its text
/// `item`, and the entries after it, `rest`, which are none or start with
/// a comma.
proof fn lemma_options_entry(sep: Seq<char>, item: Seq<char>, rest: Seq<char>, first: bool)
    requires
        sep == (if first {
            Seq::<char>::empty()
        } else {
            ","@
        }),
        item.len() > 0,
        comma_free(item),
        rest.len() > 0 ==> rest[0] == ',' && rest.last() != ',' && no_double_comma(rest),
    ensures
        ({
            let t = sep + item + rest;
            &&& t.len() > 0
            &&& (t[0] == ',' <==> !first)
            &&& t.last() != ','
            &&& no_double_comma(t)
        }),
{
    reveal_strlit(",");
    assert(no_double_comma(sep));
    assert forall|i: int| 0 <= i < item.len() - 1 implies !#[trigger] comma_pair(item, i) by {
        assert(item[i] != ',');
    }
    assert(item[0] != ',' && item.last() != ',') by {
        assert(item.last() == item[item.len() - 1]);
    }
    lemma_no_double_comma_add(sep, item);
    let a = sep + item;
    assert(a.last() == item.last());
    if rest.len() > 0 {
        lemma_no_double_comma_add(a, rest);
        assert((a + rest).last() == rest.last());
    } else {
        lemma_no_double_comma_add(a, rest);
        assert(a + rest =~= a);
    }
    assert((a + rest)[0] == a[0]);
    if first {
        assert(a[0] == item[0]);
    }
}

proof fn lemma_tcp_options_layout(opts: Seq<u8>, first: bool)
    ensures
        ({
            let t = tcp_options_text(opts, first);
            &&& (t.len() == 0 <==> opts.len() == 0)
            &&& t.len() > 0 ==> (t[0] == ',' <==> !first) && t.last() != ',' && no_double_comma(t)
        }),
    decreases opts.len(),
{
    reveal_strlit("eol");
    reveal_strlit("nop");
    reveal_strlit(",");
    if opts.len() > 0 {
        let sep = if first {
            Seq::<char>::empty()
        } else {
            ","@
        };
        let kind = opts[0];
        let empty = Seq::<char>::empty();
        assert(comma_free("eol"@) && comma_free("nop"@));
        lemma_option_comma_free(kind, 0, Seq::empty());
        lemma_option_nonempty(kind, 0, Seq::empty());
        if kind == TCPOPT_EOL {
            lemma_options_entry(sep, "eol"@, empty, first);
            assert(sep + "eol"@ + empty =~= sep + "eol"@);
        } else if kind == TCPOPT_NOP {
            lemma_tcp_options_layout(opts.drop_first(), false);
            lemma_options_entry(sep, "nop"@, tcp_options_text(opts.drop_first(), false), first);
        } else if opts.len() < 2 || opts[1] < 2 || opts.len() < opts[1] {
            lemma_options_entry(sep, malformed_option_text(kind), empty, first);
            assert(sep + malformed_option_text(kind) + empty =~= sep + malformed_option_text(kind));
        } else {
            let len = opts[1];
            let data = opts.subrange(2, len as int);
            let tail = opts.subrange(len as int, opts.len() as int);
            lemma_option_comma_free(kind, len, data);
            lemma_option_nonempty(kind, len, data);
            lemma_tcp_options_layout(tail, false);
            lemma_options_entry(sep, tcp_option_text(kind, len, data), tcp_options_text(tail, false), first);
        }
    }
}

/// Law: the options text of no bytes is empty, and that of any bytes is a
/// list of option texts joined by single commas, with none in front and
/// none at the end.
pub proof fn lemma_tcp_options_joined(opts: Seq<u8>)
    ensures
        opts.len() == 0 ==> tcp_options_text(opts, true) == Seq::<char>::empty(),
        joined_by_single_commas(tcp_options_text(opts, true)),
{
    lemma_tcp_options_layout(opts, true);
}

/// The number that the four bytes `d[i..i + 4]` spell, most significant first.
pub open spec fn u32_at(d: Seq<u8>, i: int) -> nat {
    (d[i] as nat) * 16777216 + (d[i + 1] as nat) * 65536 + (d[i + 2] as nat) * 256 + (d[i + 3] as nat)
}

/// The number that the two bytes `d[i..i + 2]` spell, most significant first.
pub open spec fn u16_at(d: Seq<u8>, i: int) -> nat {
    (d[i] as nat) * 256 + (d[i + 1] as nat)
}

/// The separator shown before an option: none before the first.
pub open spec fn option_separator(first: bool) -> Seq<char> {
    if first {
        Seq::<char>::empty()
    } else {
        ","@
    }
}

/// Law: how each well-formed option reads, from its raw bytes, at the head
/// of a list of options followed by `rest`: a no-operation as `nop`; a
/// maximum segment size (kind 2, length 4) as `mss` and the number its two
/// data bytes spell; a window scale (kind 3, length 3) as `wscale` and its
/// data byte; a permission for selective acknowledgement (kind 4, length 2)
/// as `sackOK`; one selective-acknowledgement block (kind 5, length 10) as
/// `sack` and the two numbers its data bytes spell; a timestamp (kind 8,
/// length 10) as `TS val` and `ecr` with the two numbers its data bytes
/// spell. The options after it follow, each after a comma.
pub proof fn lemma_tcp_option_readings(d: Seq<u8>, rest: Seq<u8>, first: bool)
    ensures
        tcp_options_text(seq![TCPOPT_NOP] + rest, first) == option_separator(first) + "nop"@
            + tcp_options_text(rest, false),
        d.len() == 2 ==> tcp_options_text(seq![2u8, 4u8] + d + rest, first) == option_separator(first)
            + "mss "@ + decimal(u16_at(d, 0)) + tcp_options_text(rest, false),
        d.len() == 1 ==> tcp_options_text(seq![3u8, 3u8] + d + rest, first) == option_separator(first)
            + "wscale "@ + decimal(d[0] as nat) + tcp_options_text(rest, false),
        tcp_options_text(seq![4u8, 2u8] + rest, first) == option_separator(first) + "sackOK"@
            + tcp_options_text(rest, false),
        d.len() == 8 ==> tcp_options_text(seq![5u8, 10u8] + d + rest, first) == option_separator(first)
            + "sack "@ + decimal(u32_at(d, 0)) + ":"@ + decimal(u32_at(d, 4)) + tcp_options_text(rest, false),
        d.len() == 8 ==> tcp_options_text(seq![8u8, 10u8] + d + rest, first) == option_separator(first)
            + "TS val "@ + decimal(u32_at(d, 0)) + " ecr "@ + decimal(u32_at(d, 4)) + tcp_options_text(
            rest,
            false,
        ),
{
    let nop = seq![TCPOPT_NOP] + rest;
    assert(nop[0] == TCPOPT_NOP);
    assert(nop.drop_first() =~= rest);
    let sack_ok = seq![4u8, 2u8] + rest;
    assert(sack_ok[0] == 4 && sack_ok[1] == 2);
    assert(sack_ok.subrange(2, 2) =~= Seq::<u8>::empty());
    assert(sack_ok.subrange(2, sack_ok.len() as int) =~= rest);
    if d.len() == 2 {
        let o = seq![2u8, 4u8] + d + rest;
        assert(o[0] == 2 && o[1] == 4);
        assert(o.subrange(2, 4) =~= d);
        assert(o.subrange(4, o.len() as int) =~= rest);
    }
    if d.len() == 1 {
        let o = seq![3u8, 3u8] + d + rest;
        assert(o[0] == 3 && o[1] == 3);
        assert(o.subrange(2, 3) =~= d);
        assert(o.subrange(3, o.len() as int) =~= rest);
    }
    if d.len() == 8 {
        let o = seq![5u8, 10u8] + d + rest;
        assert(o[0] == 5 && o[1] == 10);
        assert(o.subrange(2, 10) =~= d);
        assert(o.subrange(10, o.len() as int) =~= rest);
        assert(d.subrange(8, 8) =~= Seq::<u8>::empty());
        assert(sack_blocks_text(d) == " "@ + decimal(be32(d, 0)) + ":"@ + decimal(be32(d, 4))
            + sack_blocks_text(d.subrange(8, 8)));
        assert(sack_blocks_text(Seq::<u8>::empty()) == Seq::<char>::empty());
        assert(" "@ + decimal(be32(d, 0)) + ":"@ + decimal(be32(d, 4)) + Seq::<char>::empty()
            =~= " "@ + decimal(be32(d, 0)) + ":"@ + decimal(be32(d, 4)));
        reveal_strlit("sack");
        reveal_strlit(" ");
        reveal_strlit("sack ");
        assert("sack "@ =~= "sack"@ + " "@);
        let o8 = seq![8u8, 10u8] + d + rest;
        assert(o8[0] == 8 && o8[1] == 10);
        assert(o8.subrange(2, 10) =~= d);
        assert(o8.subrange(10, o8.len() as int) =~= rest);
    }
}

/// Whether the text `t` holds `s` somewhere.
pub open spec fn text_contains(t: Seq<char>, s: Seq<char>) -> bool {
    exists|i: int| 0 <= i && i + s.len() <= t.len() && #[trigger] t.subrange(i, i + s.len()) == s
}

proof fn lemma_text_contains(t: Seq<char>, a: Seq<char>, s: Seq<char>, b: Seq<char>)
    requires
        t == a + s + b,
    ensures
        text_contains(t, s),
{
    assert(t.subrange(a.len() as int, (a.len() + s.len()) as int) =~= s);
}

/// Whether `p` is a whole IPv4 packet of version 4 that carries, as
/// protocol 6, the TCP segment `seg` (the bytes between the end of the IPv4
/// header and the total length), whose header of `tcp_header_len` bytes is
/// whole.
pub open spec fn carries_tcp_segment(p: Seq<u8>, seg: Seq<u8>, tcp_header_len: int) -> bool {
    let ip_header_len = 4 * (p[0] % 16);
    let total_len = (p[2] as int) * 256 + (p[3] as int);
    &&& p.len() >= 20
    &&& p[0] / 16 == 4
    &&& ip_header_len >= 20
    &&& ip_header_len <= total_len <= p.len()
    &&& p[9] == 6
    &&& seg == p.subrange(ip_header_len as int, total_len)
    &&& seg.len() >= 20
    &&& tcp_header_len == 4 * (seg[12] / 16)
    &&& 20 <= tcp_header_len <= seg.len()
}

proof fn lemma_tcp_packet_text(p: Seq<u8>, seg: Seq<u8>, thl: int)
    requires
        carries_tcp_segment(p, seg, thl),
    ensures
        spec_parse_ipv4(p) matches Some(h) && payload_text(p) == tcp_head_text(h, seg, thl)
            + tcp_tail_text(seg, thl),
{
}

/// Law: the summary of a TCP segment shows its window (bytes 14 and 15),
/// and its acknowledgement number (bytes 8 to 11) whenever its ACK flag is
/// set.
pub proof fn lemma_tcp_summary_ack_and_window(p: Seq<u8>, seg: Seq<u8>, thl: int)
    requires
        carries_tcp_segment(p, seg, thl),
    ensures
        text_contains(payload_text(p), ", win "@ + decimal(u16_at(seg, 14))),
        seg[13] & 0x10 != 0 ==> text_contains(payload_text(p), ", ack "@ + decimal(u32_at(seg, 8))),
{
    lemma_tcp_packet_text(p, seg, thl);
    let h = spec_parse_ipv4(p)->Some_0;
    let head = tcp_head_text(h, seg, thl);
    reveal(tcp_tail_text);
    let ack = tcp_ack_text(seg);
    let win = ", win "@ + decimal(u16_at(seg, 14));
    let after = tcp_urg_text(seg) + tcp_options_part(seg, thl) + ", length "@ + decimal(
        (seg.len() - thl) as nat,
    );
    assert(payload_text(p) =~= (head + ack) + win + after);
    lemma_text_contains(payload_text(p), head + ack, win, after);
    if seg[13] & 0x10 != 0 {
        assert(ack == ", ack "@ + decimal(u32_at(seg, 8)));
        assert(payload_text(p) =~= head + ack + (win + after));
        lemma_text_contains(payload_text(p), head, ack, win + after);
    }
}

/// Law: the summary of a TCP segment shows its sequence number (bytes 4 to
/// 7): followed by a colon and the number after its last data byte (modulo
/// 2^32) when it carries data, alone when it carries none but has its FIN,
/// SYN or RST flag set.
pub proof fn lemma_tcp_summary_seq(p: Seq<u8>, seg: Seq<u8>, thl: int)
    requires
        carries_tcp_segment(p, seg, thl),
    ensures
        seg.len() > thl ==> text_contains(
            payload_text(p),
            ", seq "@ + decimal(u32_at(seg, 4)) + ":"@ + decimal(
                ((u32_at(seg, 4) + (seg.len() - thl)) % 0x1_0000_0000) as nat,
            ),
        ),
        seg.len() == thl && (seg[13] & 0x01 != 0 || seg[13] & 0x02 != 0 || seg[13] & 0x04 != 0)
            ==> text_contains(payload_text(p), ", seq "@ + decimal(u32_at(seg, 4))),
{
    lemma_tcp_packet_text(p, seg, thl);
    let h = spec_parse_ipv4(p)->Some_0;
    reveal(tcp_head_text);
    let flags = seg[13];
    let before = ports_text(h, be16(seg, 0), be16(seg, 2)) + ": Flags ["@ + tcp_flags_text(flags)
        + "]"@;
    let seq_part = tcp_seq_text(be32(seg, 4), (seg.len() - thl) as nat, flags);
    let tail = tcp_tail_text(seg, thl);
    assert(payload_text(p) == before + seq_part + tail);
    let data_len = (seg.len() - thl) as nat;
    assert(be32(seg, 4) == u32_at(seg, 4));
    if seg.len() > thl {
        assert((u32_at(seg, 4) + data_len % 0x1_0000_0000) % 0x1_0000_0000 == (u32_at(seg, 4)
            + data_len) % 0x1_0000_0000) by {
            assert(data_len < 0x1_0000_0000);
        }
        lemma_text_contains(payload_text(p), before, seq_part, tail);
    } else if seg[13] & 0x01 != 0 || seg[13] & 0x02 != 0 || seg[13] & 0x04 != 0 {
        assert(flags & (TCP_FIN | TCP_SYN | TCP_RST) != 0) by (bit_vector)
            requires
                flags & 0x01 != 0 || flags & 0x02 != 0 || flags & 0x04 != 0,
        ;
        lemma_text_contains(payload_text(p), before, seq_part, tail);
    }
}

/// The dotted-decimal text of the four bytes `p[i..i + 4]`.
pub open spec fn dotted_at(p: Seq<u8>, i: int) -> Seq<char> {
    decimal(p[i] as nat) + "."@ + decimal(p[i + 1] as nat) + "."@ + decimal(p[i + 2] as nat) + "."@
        + decimal(p[i + 3] as nat)
}

/// Law: the summary of a TCP segment starts with the source address
/// (bytes 12 to 15 of the packet) and port (bytes 0 and 1 of the segment),
/// then the destination address (bytes 16 to 19) and port (bytes 2 and 3),
/// then its flags; it ends with the length of the data after the TCP
/// header; it shows the urgent pointer (bytes 18 and 19) when the URG flag
/// is set, and the options when the header is longer than 20 bytes.
pub proof fn lemma_tcp_summary_frame(p: Seq<u8>, seg: Seq<u8>, thl: int)
    requires
        carries_tcp_segment(p, seg, thl),
    ensures
        ({
            let start = "IP "@ + dotted_at(p, 12) + "."@ + decimal(u16_at(seg, 0)) + " > "@
                + dotted_at(p, 16) + "."@ + decimal(u16_at(seg, 2)) + ": Flags ["@;
            let end = ", length "@ + decimal((seg.len() - thl) as nat);
            let t = payload_text(p);
            &&& t.len() >= start.len() + end.len()
            &&& t.subrange(0, start.len() as int) == start
            &&& t.subrange(t.len() - end.len(), t.len() as int) == end
        }),
        seg[13] & 0x20 != 0 ==> text_contains(payload_text(p), ", urg "@ + decimal(u16_at(seg, 18))),
        thl > 20 ==> text_contains(
            payload_text(p),
            ", options ["@ + tcp_options_text(seg.subrange(20, thl), true) + "]"@,
        ),
{
    lemma_tcp_packet_text(p, seg, thl);
    let h = spec_parse_ipv4(p)->Some_0;
    reveal(tcp_head_text);
    reveal(tcp_tail_text);
    let start = "IP "@ + dotted_at(p, 12) + "."@ + decimal(u16_at(seg, 0)) + " > "@ + dotted_at(p, 16)
        + "."@ + decimal(u16_at(seg, 2)) + ": Flags ["@;
    let end = ", length "@ + decimal((seg.len() - thl) as nat);
    let flags_rest = tcp_flags_text(seg[13]) + "]"@ + tcp_seq_text(
        be32(seg, 4),
        (seg.len() - thl) as nat,
        seg[13],
    );
    let ack_win = tcp_ack_text(seg) + ", win "@ + decimal(be16(seg, 14));
    let urg = tcp_urg_text(seg);
    let opts = tcp_options_part(seg, thl);
    let t = payload_text(p);
    assert(ipv4_text(h.src) == dotted_at(p, 12));
    assert(ipv4_text(h.dst) == dotted_at(p, 16));
    assert(t =~= start + (flags_rest + ack_win) + urg + opts + end);
    assert(t =~= start + (flags_rest + ack_win + urg + opts + end));
    assert(t.subrange(0, start.len() as int) =~= start);
    assert(t.subrange(t.len() - end.len(), t.len() as int) =~= end);
    if seg[13] & 0x20 != 0 {
        assert(t =~= start + (flags_rest + ack_win) + urg + (opts + end));
        lemma_text_contains(t, start + (flags_rest + ack_win), urg, opts + end);
    }
    if thl > 20 {
        assert(t =~= start + (flags_rest + ack_win) + urg + opts + end);
        lemma_text_contains(t, start + (flags_rest + ack_win) + urg, opts, end);
    }
}

/// Law: the summary of a whole IPv4 packet of version 4 that carries, as
/// protocol 17, a UDP datagram with a whole 8-byte header names the two
/// addresses and ports and the data length that the UDP length field
/// (bytes 4 and 5) gives, after its 8-byte header (0 when it is less).
pub proof fn lemma_udp_summary(p: Seq<u8>, dgram: Seq<u8>)
    requires
        p.len() >= 20,
        p[0] / 16 == 4,
        4 * (p[0] % 16) >= 20,
        4 * (p[0] % 16) <= (p[2] as int) * 256 + (p[3] as int) <= p.len(),
        p[9] == 17,
        dgram == p.subrange(4 * (p[0] % 16), (p[2] as int) * 256 + (p[3] as int)),
        dgram.len() >= 8,
    ensures
        payload_text(p) == "IP "@ + dotted_at(p, 12) + "."@ + decimal(u16_at(dgram, 0)) + " > "@
            + dotted_at(p, 16) + "."@ + decimal(u16_at(dgram, 2)) + ": UDP, length "@ + decimal(
            if u16_at(dgram, 4) >= 8 {
                (u16_at(dgram, 4) - 8) as nat
            } else {
                0
            },
        ),
{
    let h = spec_parse_ipv4(p)->Some_0;
    assert(ipv4_text(h.src) == dotted_at(p, 12));
    assert(ipv4_text(h.dst) == dotted_at(p, 16));
}

/// Whether the character `c` occurs in `t`.
pub open spec fn has_char(t: Seq<char>, c: char) -> bool {
    exists|i: int| 0 <= i < t.len() && #[trigger] t[i] == c
}

proof fn lemma_has_char_add(a: Seq<char>, b: Seq<char>, c: char)
    ensures
        has_char(a + b, c) <==> has_char(a, c) || has_char(b, c),
{
    if has_char(a + b, c) {
        let i = choose|i: int| 0 <= i < (a + b).len() && #[trigger] (a + b)[i] == c;
        if i < a.len() {
            assert(a[i] == c);
        } else {
            assert(b[i - a.len()] == c);
        }
    }
    if has_char(a, c) {
        let i = choose|i: int| 0 <= i < a.len() && #[trigger] a[i] == c;
        assert((a + b)[i] == c);
    }
    if has_char(b, c) {
        let i = choose|i: int| 0 <= i < b.len() && #[trigger] b[i] == c;
        assert((a + b)[a.len() + i] == c);
    }
}

proof fn lemma_has_char_flag(flags: u8, bit: u8, l: char, c: char)
    ensures
        has_char(flag_text(flags, bit, seq![l]), c) <==> (flags & bit != 0 && c == l),
{
    if flags & bit != 0 && c == l {
        assert(flag_text(flags, bit, seq![l])[0] == c);
    }
}

proof fn lemma_flag_letters_has_char(flags: u8, c: char)
    ensures
        has_char(flag_letters(flags), c) <==> ((c == 'F' && flags & TCP_FIN != 0) || (c == 'S' && flags
            & TCP_SYN != 0) || (c == 'R' && flags & TCP_RST != 0) || (c == 'P' && flags & TCP_PSH != 0)
            || (c == '.' && flags & TCP_ACK != 0) || (c == 'U' && flags & TCP_URG != 0) || (c == 'E'
            && flags & TCP_ECE != 0) || (c == 'W' && flags & TCP_CWR != 0)),
{
    reveal_strlit("F");
    reveal_strlit("S");
    reveal_strlit("R");
    reveal_strlit("P");
    reveal_strlit(".");
    reveal_strlit("U");
    reveal_strlit("E");
    reveal_strlit("W");
    assert("F"@ =~= seq!['F']);
    assert("S"@ =~= seq!['S']);
    assert("R"@ =~= seq!['R']);
    assert("P"@ =~= seq!['P']);
    assert("."@ =~= seq!['.']);
    assert("U"@ =~= seq!['U']);
    assert("E"@ =~= seq!['E']);
    assert("W"@ =~= seq!['W']);
    let f1 = flag_text(flags, TCP_FIN, "F"@);
    let f2 = flag_text(flags, TCP_SYN, "S"@);
    let f3 = flag_text(flags, TCP_RST, "R"@);
    let f4 = flag_text(flags, TCP_PSH, "P"@);
    let f5 = flag_text(flags, TCP_ACK, "."@);
    let f6 = flag_text(flags, TCP_URG, "U"@);
    let f7 = flag_text(flags, TCP_ECE, "E"@);
    let f8 = flag_text(flags, TCP_CWR, "W"@);
    lemma_has_char_flag(flags, TCP_FIN, 'F', c);
    lemma_has_char_flag(flags, TCP_SYN, 'S', c);
    lemma_has_char_flag(flags, TCP_RST, 'R', c);
    lemma_has_char_flag(flags, TCP_PSH, 'P', c);
    lemma_has_char_flag(flags, TCP_ACK, '.', c);
    lemma_has_char_flag(flags, TCP_URG, 'U', c);
    lemma_has_char_flag(flags, TCP_ECE, 'E', c);
    lemma_has_char_flag(flags, TCP_CWR, 'W', c);
    lemma_has_char_add(f1, f2, c);
    lemma_has_char_add(f1 + f2, f3, c);
    lemma_has_char_add(f1 + f2 + f3, f4, c);
    lemma_has_char_add(f1 + f2 + f3 + f4, f5, c);
    lemma_has_char_add(f1 + f2 + f3 + f4 + f5, f6, c);
    lemma_has_char_add(f1 + f2 + f3 + f4 + f5 + f6, f7, c);
    lemma_has_char_add(f1 + f2 + f3 + f4 + f5 + f6 + f7, f8, c);
}

proof fn lemma_flags_text_has_char(flags: u8, c: char)
    requires
        c == 'F' || c == 'S' || c == 'R' || c == 'P' || c == '.' || c == 'U' || c == 'E' || c == 'W',
    ensures
        has_char(tcp_flags_text(flags), c) <==> has_char(flag_letters(flags), c),
{
    reveal_strlit("none");
    if flag_letters(flags).len() == 0 {
        assert("none"@ =~= seq!['n', 'o', 'n', 'e']);
        if has_char("none"@, c) {
            let i = choose|i: int| 0 <= i < "none"@.len() && #[trigger] "none"@[i] == c;
            assert(false);
        }
    }
}

/// Law: each TCP flag shows as its own letter, present in the flags text
/// exactly when the flag's bit is set: `F` FIN (0x01), `S` SYN (0x02),
/// `R` RST (0x04), `P` PSH (0x08), `.` ACK (0x10), `U` URG (0x20), `E` ECE
/// (0x40), `W` CWR (0x80).
pub proof fn lemma_tcp_flag_letters(flags: u8)
    ensures
        has_char(tcp_flags_text(flags), 'F') <==> flags & 0x01 != 0,
        has_char(tcp_flags_text(flags), 'S') <==> flags & 0x02 != 0,
        has_char(tcp_flags_text(flags), 'R') <==> flags & 0x04 != 0,
        has_char(tcp_flags_text(flags), 'P') <==> flags & 0x08 != 0,
        has_char(tcp_flags_text(flags), '.') <==> flags & 0x10 != 0,
        has_char(tcp_flags_text(flags), 'U') <==> flags & 0x20 != 0,
        has_char(tcp_flags_text(flags), 'E') <==> flags & 0x40 != 0,
        has_char(tcp_flags_text(flags), 'W') <==> flags & 0x80 != 0,
{
    lemma_flag_letters_has_char(flags, 'F');
    lemma_flag_letters_has_char(flags, 'S');
    lemma_flag_letters_has_char(flags, 'R');
    lemma_flag_letters_has_char(flags, 'P');
    lemma_flag_letters_has_char(flags, '.');
    lemma_flag_letters_has_char(flags, 'U');
    lemma_flag_letters_has_char(flags, 'E');
    lemma_flag_letters_has_char(flags, 'W');
    lemma_flags_text_has_char(flags, 'F');
    lemma_flags_text_has_char(flags, 'S');
    lemma_flags_text_has_char(flags, 'R');
    lemma_flags_text_has_char(flags, 'P');
    lemma_flags_text_has_char(flags, '.');
    lemma_flags_text_has_char(flags, 'U');
    lemma_flags_text_has_char(flags, 'E');
    lemma_flags_text_has_char(flags, 'W');
}

/// Law: a malformed option (one byte left, a length below 2, or a length
/// past the end) shows as `unknown-<kind> malformed` and ends the options
/// shown; an option of a kind not otherwise known, with a length that fits,
/// shows as `unknown-<kind> <length>` and the options after it follow.
pub proof fn lemma_tcp_option_unknown_and_malformed(opts: Seq<u8>, first: bool)
    requires
        opts.len() > 0,
        opts[0] != 0 && opts[0] != 1 && opts[0] != 2 && opts[0] != 3 && opts[0] != 4 && opts[0] != 5
            && opts[0] != 8,
    ensures
        (opts.len() < 2 || opts[1] < 2 || opts.len() < opts[1]) ==> tcp_options_text(opts, first)
            == option_separator(first) + "unknown-"@ + decimal(opts[0] as nat) + " malformed"@,
        !(opts.len() < 2 || opts[1] < 2 || opts.len() < opts[1]) ==> tcp_options_text(opts, first)
            == option_separator(first) + "unknown-"@ + decimal(opts[0] as nat) + " "@ + decimal(
            opts[1] as nat,
        ) + tcp_options_text(opts.subrange(opts[1] as int, opts.len() as int), false),
{
}

/// Law: how a packet that is no whole IPv4 packet carrying TCP or UDP is
/// summarized, from its raw bytes: fewer than 20 bytes, or a header length
/// below 20 bytes or past the end, as truncated with its length; another
/// version than 4 as `IP<version> packet` with its length; a total length
/// (bytes 2 and 3) below the header length as invalid; a total length past
/// the end by the number of bytes missing; and another protocol than 6 and
/// 17 by its addresses, its protocol number and its data length.
pub proof fn lemma_ip_summary(p: Seq<u8>)
    ensures
        ({
            let ihl = 4 * (p[0] % 16);
            let total = (p[2] as int) * 256 + (p[3] as int);
            let addrs = "IP "@ + dotted_at(p, 12) + " > "@ + dotted_at(p, 16);
            &&& (p.len() < 20 || ihl < 20 || p.len() < ihl) ==> payload_text(p) == "IP truncated, length "@
                + decimal(p.len())
            &&& (p.len() >= 20 && ihl >= 20 && p.len() >= ihl && p[0] / 16 != 4) ==> payload_text(p)
                == "IP"@ + decimal((p[0] / 16) as nat) + " packet, length "@ + decimal(p.len())
            &&& (p.len() >= 20 && ihl >= 20 && p.len() >= ihl && p[0] / 16 == 4 && total < ihl)
                ==> payload_text(p) == addrs + ": invalid total length "@ + decimal(total as nat)
            &&& (p.len() >= 20 && ihl >= 20 && p.len() >= ihl && p[0] / 16 == 4 && ihl <= total
                && p.len() < total) ==> payload_text(p) == addrs + ": truncated-ip - "@ + decimal(
                (total - p.len()) as nat,
            ) + " bytes missing"@
            &&& (p.len() >= 20 && ihl >= 20 && p[0] / 16 == 4 && ihl <= total && total <= p.len()
                && p[9] != 6 && p[9] != 17) ==> payload_text(p) == addrs + ": ip-proto-"@ + decimal(
                p[9] as nat,
            ) + ", length "@ + decimal((total - ihl) as nat)
        }),
{
    if p.len() >= 20 {
        let ihl = 4 * (p[0] % 16);
        if ihl >= 20 && p.len() >= ihl {
            let h = spec_parse_ipv4(p)->Some_0;
            assert(endpoints_text(h) == "IP "@ + dotted_at(p, 12) + " > "@ + dotted_at(p, 16));
        }
    }
}

} // verus!
