//! Readers for the values the command line takes: port ranges, vsock
//! addresses and IPv4 socket addresses, and the text of the errors shown
//! for values they refuse.

use vstd::prelude::*;
use crate::cli::{Ipv4SocketAddress, VsockAddress};
use crate::decimal::{parse_digits, parse_unsigned, parse_unsigned_chars, IntErrorKind};
use crate::interfaces::{find_first, find_from, lemma_find_first};
use crate::packet::Ipv4Address;
use crate::text::{chars_of, push_str, string_from_chars};

verus! {

/// The characters equal to `c`.
pub open spec fn is_char(c: char) -> spec_fn(char) -> bool {
    |x: char| x == c
}

/// The index of the first `c` in `s`.
pub open spec fn index_of(s: Seq<char>, c: char) -> Option<int> {
    find_first(s, is_char(c))
}

/// `s` cut at its first `c`: the part before and the part after.
pub open spec fn split_once(s: Seq<char>, c: char) -> Option<(Seq<char>, Seq<char>)> {
    match index_of(s, c) {
        Some(i) => Some((s.subrange(0, i), s.subrange(i + 1, s.len() as int))),
        None => None,
    }
}

/// Finds the first `c` in `chars[start..end]`, as an index into `chars`.
pub fn find_char(chars: &Vec<char>, start: usize, end: usize, c: char) -> (r: Option<usize>)
    requires
        start <= end <= chars@.len(),
    ensures
        match index_of(chars@.subrange(start as int, end as int), c) {
            Some(i) => r == Some((start + i) as usize),
            None => r is None,
        },
{
    let ghost s = chars@.subrange(start as int, end as int);
    let mut i: usize = start;
    while i < end
        invariant
            start <= i <= end,
            end <= chars@.len(),
            s == chars@.subrange(start as int, end as int),
            index_of(s, c) == find_from(s, is_char(c), i - start),
        decreases end - i,
    {
        assert(s[i - start] == chars@[i as int]);
        if chars[i] == c {
            return Some(i);
        }
        i += 1;
    }
    None
}

// ------------------------------------------------------------------------
// Port ranges

/// Why a port range was refused.
#[derive(Clone, Copy, Debug, PartialEq, Eq, Structural)]
pub enum PortRangeError {
    /// More than one `-`.
    InvalidRange,
    /// A bound is not a port number.
    InvalidPort(IntErrorKind),
}

/// `(p, q)` ordered so that the smaller comes first.
pub open spec fn ordered(p: int, q: int) -> (u16, u16) {
    if p < q {
        (p as u16, q as u16)
    } else {
        (q as u16, p as u16)
    }
}

/// The port range written as `port` or `port-port` (in either order).
pub open spec fn spec_parse_port_range(s: Seq<char>) -> Result<(u16, u16), PortRangeError> {
    match split_once(s, '-') {
        None => match parse_unsigned(s, 0xffff) {
            Ok(p) => Ok((p as u16, p as u16)),
            Err(e) => Err(PortRangeError::InvalidPort(e)),
        },
        Some((a, b)) => if index_of(b, '-') is Some {
            Err(PortRangeError::InvalidRange)
        } else {
            match parse_unsigned(a, 0xffff) {
                Err(e) => Err(PortRangeError::InvalidPort(e)),
                Ok(p) => match parse_unsigned(b, 0xffff) {
                    Err(e) => Err(PortRangeError::InvalidPort(e)),
                    Ok(q) => Ok(ordered(p, q)),
                },
            }
        },
    }
}

/// The text shown for a refused port range.
pub open spec fn port_range_error_text(e: PortRangeError) -> Seq<char> {
    match e {
        PortRangeError::InvalidRange => "invalid port range"@,
        PortRangeError::InvalidPort(k) => "invalid port: "@ + k.spec_description(),
    }
}

impl PortRangeError {
    /// The text shown for the refused value.
    pub fn message(&self) -> (s: String)
        ensures
            s@ == port_range_error_text(*self),
    {
        let mut out: Vec<char> = Vec::new();
        match self {
            PortRangeError::InvalidRange => push_str(&mut out, "invalid port range"),
            PortRangeError::InvalidPort(k) => {
                push_str(&mut out, "invalid port: ");
                push_str(&mut out, k.description());
            },
        }
        string_from_chars(out)
    }
}

fn parse_port(chars: &Vec<char>, start: usize, end: usize) -> (r: Result<u16, IntErrorKind>)
    requires
        start <= end <= chars@.len(),
    ensures
        match parse_unsigned(chars@.subrange(start as int, end as int), 0xffff) {
            Ok(v) => r == Ok::<u16, IntErrorKind>(v as u16),
            Err(e) => r == Err::<u16, IntErrorKind>(e),
        },
{
    match parse_unsigned_chars(chars, start, end, 0xffff) {
        Ok(v) => Ok(v as u16),
        Err(e) => Err(e),
    }
}

/// Reads a port range, `port` or `low-high`; the bounds come out ordered
/// whichever way they were written.
pub fn parse_port_range(value: &str) -> (r: Result<(u16, u16), PortRangeError>)
    ensures
        r == spec_parse_port_range(value@),
        r matches Ok((lo, hi)) ==> lo <= hi,
{
    let chars = chars_of(value);
    let n = chars.len();
    assert(chars@.subrange(0, n as int) == value@);
    proof {
        lemma_find_first(value@, is_char('-'));
    }
    match find_char(&chars, 0, n, '-') {
        None => match parse_port(&chars, 0, n) {
            Ok(p) => Ok((p, p)),
            Err(e) => Err(PortRangeError::InvalidPort(e)),
        },
        Some(i) => {
            assert(chars@.subrange(i + 1, n as int) == value@.subrange(i + 1, value@.len() as int));
            assert(chars@.subrange(0, i as int) == value@.subrange(0, i as int));
            if find_char(&chars, i + 1, n, '-').is_some() {
                return Err(PortRangeError::InvalidRange);
            }
            let p = match parse_port(&chars, 0, i) {
                Ok(p) => p,
                Err(e) => return Err(PortRangeError::InvalidPort(e)),
            };
            let q = match parse_port(&chars, i + 1, n) {
                Ok(q) => q,
                Err(e) => return Err(PortRangeError::InvalidPort(e)),
            };
            proof {
                crate::decimal::lemma_parse_unsigned_bounded(chars@.subrange(0, i as int), 0xffff);
                crate::decimal::lemma_parse_unsigned_bounded(chars@.subrange(i + 1, n as int), 0xffff);
            }
            if p < q {
                Ok((p, q))
            } else {
                Ok((q, p))
            }
        },
    }
}

/// Law: reading `a-b` and `b-a` gives the same range.
pub proof fn lemma_port_range_symmetric(a: Seq<char>, b: Seq<char>)
    requires
        index_of(a, '-') is None,
        index_of(b, '-') is None,
        parse_unsigned(a, 0xffff) is Ok,
        parse_unsigned(b, 0xffff) is Ok,
    ensures
        spec_parse_port_range(a + "-"@ + b) == spec_parse_port_range(b + "-"@ + a),
{
    reveal_strlit("-");
    lemma_split_joined(a, b);
    lemma_split_joined(b, a);
    crate::decimal::lemma_parse_unsigned_bounded(a, 0xffff);
    crate::decimal::lemma_parse_unsigned_bounded(b, 0xffff);
}

proof fn lemma_split_joined(a: Seq<char>, b: Seq<char>)
    requires
        index_of(a, '-') is None,
    ensures
        split_once(a + "-"@ + b, '-') == Some((a, b)),
{
    reveal_strlit("-");
    assert("-"@ =~= seq!['-']);
    lemma_split_once_joined(a, '-', b);
}

/// Cutting `a + c + b` at its first `c` gives back `a` and `b` when `a`
/// holds no `c`.
pub proof fn lemma_split_once_joined(a: Seq<char>, c: char, b: Seq<char>)
    requires
        index_of(a, c) is None,
    ensures
        split_once(a + seq![c] + b, c) == Some((a, b)),
{
    let s = a + seq![c] + b;
    lemma_find_first(a, is_char(c));
    lemma_find_first(s, is_char(c));
    assert(s[a.len() as int] == c);
    assert forall|j: int| 0 <= j < a.len() implies !is_char(c)(#[trigger] s[j]) by {
        assert(s[j] == a[j]);
    }
    assert(s.subrange(0, a.len() as int) =~= a);
    assert(s.subrange(a.len() as int + 1, s.len() as int) =~= b);
}

// ------------------------------------------------------------------------
// vsock addresses

/// Why a vsock address was refused.
#[derive(Clone, Copy, Debug, PartialEq, Eq, Structural)]
pub enum SocketAddressError {
    MissingColon,
    InvalidCid(IntErrorKind),
    InvalidPort(IntErrorKind),
}

/// The context id for "any": 0 on the command line, `u32::MAX` for the kernel.
pub const VMADDR_CID_ANY: u32 = 0xFFFF_FFFF;

/// The vsock address written as `cid:port`; a context id of 0 stands for
/// any context.
pub open spec fn spec_parse_vsock_address(s: Seq<char>) -> Result<VsockAddress, SocketAddressError> {
    match split_once(s, ':') {
        None => Err(SocketAddressError::MissingColon),
        Some((c, p)) => match parse_unsigned(c, 0xffff_ffff) {
            Err(e) => Err(SocketAddressError::InvalidCid(e)),
            Ok(cid) => match parse_unsigned(p, 0xffff_ffff) {
                Err(e) => Err(SocketAddressError::InvalidPort(e)),
                Ok(port) => Ok(
                    VsockAddress {
                        cid: if cid == 0 {
                            VMADDR_CID_ANY
                        } else {
                            cid as u32
                        },
                        port: port as u32,
                    },
                ),
            },
        },
    }
}

/// The text shown for a refused vsock address.
pub open spec fn socket_address_error_text(e: SocketAddressError) -> Seq<char> {
    match e {
        SocketAddressError::MissingColon => "missing colon"@,
        SocketAddressError::InvalidCid(k) => "invalid cid: "@ + k.spec_description(),
        SocketAddressError::InvalidPort(k) => "invalid port: "@ + k.spec_description(),
    }
}

impl SocketAddressError {
    /// The text shown for the refused value.
    pub fn message(&self) -> (s: String)
        ensures
            s@ == socket_address_error_text(*self),
    {
        let mut out: Vec<char> = Vec::new();
        match self {
            SocketAddressError::MissingColon => push_str(&mut out, "missing colon"),
            SocketAddressError::InvalidCid(k) => {
                push_str(&mut out, "invalid cid: ");
                push_str(&mut out, k.description());
            },
            SocketAddressError::InvalidPort(k) => {
                push_str(&mut out, "invalid port: ");
                push_str(&mut out, k.description());
            },
        }
        string_from_chars(out)
    }
}

/// Reads a vsock address written as `cid:port`.
pub fn parse_vsock_address(value: &str) -> (r: Result<VsockAddress, SocketAddressError>)
    ensures
        r == spec_parse_vsock_address(value@),
{
    let chars = chars_of(value);
    let n = chars.len();
    assert(chars@.subrange(0, n as int) == value@);
    proof {
        lemma_find_first(value@, is_char(':'));
    }
    let i = match find_char(&chars, 0, n, ':') {
        Some(i) => i,
        None => return Err(SocketAddressError::MissingColon),
    };
    assert(chars@.subrange(i + 1, n as int) == value@.subrange(i + 1, value@.len() as int));
    assert(chars@.subrange(0, i as int) == value@.subrange(0, i as int));
    let cid = match parse_unsigned_chars(&chars, 0, i, 0xffff_ffff) {
        Ok(v) => v as u32,
        Err(e) => return Err(SocketAddressError::InvalidCid(e)),
    };
    let port = match parse_unsigned_chars(&chars, i + 1, n, 0xffff_ffff) {
        Ok(v) => v as u32,
        Err(e) => return Err(SocketAddressError::InvalidPort(e)),
    };
    Ok(
        VsockAddress {
            cid: if cid == 0 {
                VMADDR_CID_ANY
            } else {
                cid
            },
            port,
        },
    )
}

// ------------------------------------------------------------------------
// IPv4 socket addresses

/// The value of one dotted-decimal group: one to three digits, no leading
/// zero unless the group is `0`, at most 255.
pub open spec fn spec_octet(g: Seq<char>) -> Option<u8> {
    if 1 <= g.len() <= 3 && !(g[0] == '0' && g.len() > 1) {
        match parse_digits(g, 0, 255) {
            Ok(v) => Some(v as u8),
            Err(_) => None,
        }
    } else {
        None
    }
}

/// The values of `k` dotted-decimal groups separated by `.`, when `s` is
/// exactly that.
pub open spec fn dotted(s: Seq<char>, k: nat) -> Option<Seq<u8>>
    decreases k,
{
    if k <= 1 {
        match spec_octet(s) {
            Some(o) => Some(seq![o]),
            None => None,
        }
    } else {
        match split_once(s, '.') {
            None => None,
            Some((g, r)) => match (spec_octet(g), dotted(r, (k - 1) as nat)) {
                (Some(o), Some(rest)) => Some(seq![o] + rest),
                _ => None,
            },
        }
    }
}

proof fn lemma_dotted_len(s: Seq<char>, k: nat)
    ensures
        dotted(s, k) matches Some(v) ==> v.len() == if k == 0 {
            1
        } else {
            k
        },
    decreases k,
{
    if k > 1 {
        if let Some((g, r)) = split_once(s, '.') {
            lemma_dotted_len(r, (k - 1) as nat);
        }
    }
}

/// The IPv4 address written in dotted-decimal notation `a.b.c.d`, as Rust's
/// `Ipv4Addr` reads it.
pub open spec fn spec_parse_ipv4_address(s: Seq<char>) -> Option<Ipv4Address> {
    match dotted(s, 4) {
        Some(o) => Some(Ipv4Address(o[0], o[1], o[2], o[3])),
        None => None,
    }
}

fn parse_octet(chars: &Vec<char>, start: usize, end: usize) -> (r: Option<u8>)
    requires
        start <= end <= chars@.len(),
    ensures
        r == spec_octet(chars@.subrange(start as int, end as int)),
{
    let ghost g = chars@.subrange(start as int, end as int);
    let len = end - start;
    if len < 1 || len > 3 {
        return None;
    }
    assert(g[0] == chars@[start as int]);
    if chars[start] == '0' && len > 1 {
        return None;
    }
    proof {
        crate::decimal::lemma_parse_unsigned_bounded(g, 255);
    }
    if chars[start] == '+' || chars[start] == '-' {
        assert(parse_digits(g, 0, 255) is Err);
        return None;
    }
    match parse_unsigned_chars(chars, start, end, 255) {
        Ok(v) => Some(v as u8),
        Err(_) => None,
    }
}

fn parse_dotted(chars: &Vec<char>, start: usize, end: usize, k: usize) -> (r: Option<Vec<u8>>)
    requires
        start <= end <= chars@.len(),
        1 <= k <= 4,
    ensures
        match dotted(chars@.subrange(start as int, end as int), k as nat) {
            Some(v) => r matches Some(w) && w@ == v,
            None => r is None,
        },
    decreases k,
{
    let ghost s = chars@.subrange(start as int, end as int);
    if k == 1 {
        return match parse_octet(chars, start, end) {
            Some(o) => {
                let mut v: Vec<u8> = Vec::new();
                v.push(o);
                assert(v@ =~= seq![o]);
                Some(v)
            },
            None => None,
        };
    }
    proof {
        lemma_find_first(s, is_char('.'));
    }
    let i = match find_char(chars, start, end, '.') {
        Some(i) => i,
        None => return None,
    };
    assert(chars@.subrange(start as int, i as int) == s.subrange(0, i - start));
    assert(chars@.subrange(i + 1, end as int) == s.subrange(i - start + 1, s.len() as int));
    let first = parse_octet(chars, start, i);
    let rest = parse_dotted(chars, i + 1, end, k - 1);
    match (first, rest) {
        (Some(o), Some(rest)) => {
            let mut v: Vec<u8> = Vec::new();
            v.push(o);
            let mut j: usize = 0;
            while j < rest.len()
                invariant
                    j <= rest@.len(),
                    v@ == seq![o] + rest@.subrange(0, j as int),
                decreases rest@.len() - j,
            {
                v.push(rest[j]);
                j += 1;
                assert(v@ =~= seq![o] + rest@.subrange(0, j as int));
            }
            assert(rest@.subrange(0, rest@.len() as int) =~= rest@);
            Some(v)
        },
        _ => None,
    }
}

fn parse_ipv4_chars(chars: &Vec<char>) -> (r: Option<Ipv4Address>)
    ensures
        r == spec_parse_ipv4_address(chars@),
{
    let n = chars.len();
    assert(chars@.subrange(0, n as int) == chars@);
    proof {
        lemma_dotted_len(chars@, 4);
    }
    match parse_dotted(chars, 0, n, 4) {
        Some(o) => Some(Ipv4Address(o[0], o[1], o[2], o[3])),
        None => None,
    }
}

/// Reads an IPv4 address in dotted-decimal notation.
pub fn parse_ipv4_address(value: &str) -> (r: Option<Ipv4Address>)
    ensures
        r == spec_parse_ipv4_address(value@),
{
    let chars = chars_of(value);
    parse_ipv4_chars(&chars)
}

/// Why an IPv4 socket address was refused.
#[derive(Clone, Copy, Debug, PartialEq, Eq, Structural)]
pub enum Ipv4SocketAddressError {
    MissingColon,
    InvalidAddress,
    InvalidPort(IntErrorKind),
}

/// The IPv4 socket address written as `a.b.c.d:port`.
pub open spec fn spec_parse_ipv4_socket_address(s: Seq<char>) -> Result<
    Ipv4SocketAddress,
    Ipv4SocketAddressError,
> {
    match split_once(s, ':') {
        None => Err(Ipv4SocketAddressError::MissingColon),
        Some((a, p)) => match spec_parse_ipv4_address(a) {
            None => Err(Ipv4SocketAddressError::InvalidAddress),
            Some(ip) => match parse_unsigned(p, 0xffff) {
                Err(e) => Err(Ipv4SocketAddressError::InvalidPort(e)),
                Ok(port) => Ok(Ipv4SocketAddress { ip, port: port as u16 }),
            },
        },
    }
}

/// The text shown for a refused IPv4 socket address.
pub open spec fn ipv4_socket_address_error_text(e: Ipv4SocketAddressError) -> Seq<char> {
    match e {
        Ipv4SocketAddressError::MissingColon => "missing colon"@,
        Ipv4SocketAddressError::InvalidAddress => "invalid ipv4 address: invalid IPv4 address syntax"@,
        Ipv4SocketAddressError::InvalidPort(k) => "invalid port: "@ + k.spec_description(),
    }
}

impl Ipv4SocketAddressError {
    /// The text shown for the refused value.
    pub fn message(&self) -> (s: String)
        ensures
            s@ == ipv4_socket_address_error_text(*self),
    {
        let mut out: Vec<char> = Vec::new();
        match self {
            Ipv4SocketAddressError::MissingColon => push_str(&mut out, "missing colon"),
            Ipv4SocketAddressError::InvalidAddress => push_str(
                &mut out,
                "invalid ipv4 address: invalid IPv4 address syntax",
            ),
            Ipv4SocketAddressError::InvalidPort(k) => {
                push_str(&mut out, "invalid port: ");
                push_str(&mut out, k.description());
            },
        }
        string_from_chars(out)
    }
}

/// Reads an IPv4 socket address written as `a.b.c.d:port`.
pub fn parse_ipv4_socket_address(value: &str) -> (r: Result<
    Ipv4SocketAddress,
    Ipv4SocketAddressError,
>)
    ensures
        r == spec_parse_ipv4_socket_address(value@),
{
    let chars = chars_of(value);
    let n = chars.len();
    assert(chars@.subrange(0, n as int) == value@);
    proof {
        lemma_find_first(value@, is_char(':'));
    }
    let i = match find_char(&chars, 0, n, ':') {
        Some(i) => i,
        None => return Err(Ipv4SocketAddressError::MissingColon),
    };
    assert(chars@.subrange(i + 1, n as int) == value@.subrange(i + 1, value@.len() as int));
    let mut head: Vec<char> = Vec::new();
    let mut k: usize = 0;
    while k < i
        invariant
            k <= i,
            i <= chars@.len(),
            head@ == chars@.subrange(0, k as int),
        decreases i - k,
    {
        head.push(chars[k]);
        k += 1;
        assert(head@ =~= chars@.subrange(0, k as int));
    }
    assert(head@ == value@.subrange(0, i as int));
    let ip = match parse_ipv4_chars(&head) {
        Some(ip) => ip,
        None => return Err(Ipv4SocketAddressError::InvalidAddress),
    };
    let port = match parse_port(&chars, i + 1, n) {
        Ok(p) => p,
        Err(e) => return Err(Ipv4SocketAddressError::InvalidPort(e)),
    };
    Ok(Ipv4SocketAddress { ip, port })
}

// ------------------------------------------------------------------------
// Error text

/// The message of a refused command-line value: which value, for which
/// argument, and why.
pub open spec fn clap_error_text(value: Seq<char>, arg: Option<Seq<char>>, err: Seq<char>) -> Seq<
    char,
> {
    if value.len() == 0 {
        match arg {
            None => "invalid value for one of the arguments: "@ + err + "\n"@,
            Some(a) => "invalid value for `"@ + a + "`: "@ + err + "\n"@,
        }
    } else {
        match arg {
            None => "invalid value `"@ + value + "` for one of the arguments: "@ + err + "\n"@,
            Some(a) => "invalid value `"@ + value + "` for `"@ + a + "`: "@ + err + "\n"@,
        }
    }
}

/// The message of a refused command-line value `value` for the argument
/// `arg` (when known), refused because of `err`.
pub fn clap_error_message(value: &str, arg: Option<&str>, err: &str) -> (s: String)
    ensures
        s@ == clap_error_text(
            value@,
            match arg {
                Some(a) => Some(a@),
                None => None,
            },
            err@,
        ),
{
    let mut out: Vec<char> = Vec::new();
    let empty = value.unicode_len() == 0;
    if empty {
        match arg {
            None => {
                push_str(&mut out, "invalid value for one of the arguments: ");
            },
            Some(a) => {
                push_str(&mut out, "invalid value for `");
                push_str(&mut out, a);
                push_str(&mut out, "`: ");
            },
        }
    } else {
        push_str(&mut out, "invalid value `");
        push_str(&mut out, value);
        match arg {
            None => {
                push_str(&mut out, "` for one of the arguments: ");
            },
            Some(a) => {
                push_str(&mut out, "` for `");
                push_str(&mut out, a);
                push_str(&mut out, "`: ");
            },
        }
    }
    push_str(&mut out, err);
    push_str(&mut out, "\n");
    proof {
        reveal_strlit("`");
    }
    assert(out@ =~= clap_error_text(
        value@,
        match arg {
            Some(a) => Some(a@),
            None => None,
        },
        err@,
    ));
    string_from_chars(out)
}

} // verus!
