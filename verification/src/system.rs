//! Small system-level decisions: how socket addresses are shown, how the
//! kernel's ephemeral port range is updated, and how an interface is
//! brought up.

use vstd::prelude::*;
use crate::cli::{Ipv4SocketAddress, VsockAddress};
use crate::decimal::{
    decimal, is_digit, lemma_decimal_digits, lemma_decimal_len_small, lemma_decimal_no_leading_zero,
    lemma_decimal_parses, lemma_decimal_roundtrip, parse_unsigned, parse_unsigned_chars, IntErrorKind,
    push_decimal,
};
use crate::error::{Error, IoErrorKind, IoFailure};
use crate::interfaces::lemma_find_first;
use crate::packet::{ipv4_text, Ipv4Address};
use crate::parsers::{
    dotted, index_of, is_char, lemma_split_once_joined, spec_octet, spec_parse_ipv4_address,
    spec_parse_ipv4_socket_address, spec_parse_vsock_address, VMADDR_CID_ANY,
};
use crate::text::{chars_of, push_str, string_from_chars};

verus! {

/// `cid:port`, with the "any" context id shown as 0.
pub open spec fn vsock_address_text(a: VsockAddress) -> Seq<char> {
    decimal(
        if a.cid == VMADDR_CID_ANY {
            0
        } else {
            a.cid as nat
        },
    ) + ":"@ + decimal(a.port as nat)
}

/// Shows a vsock address as `cid:port`, the "any" context id as 0.
pub fn display_vsock_address(a: &VsockAddress) -> (s: String)
    ensures
        s@ == vsock_address_text(*a),
{
    let mut out: Vec<char> = Vec::new();
    if a.cid == VMADDR_CID_ANY {
        push_decimal(&mut out, 0);
    } else {
        push_decimal(&mut out, a.cid as u64);
    }
    push_str(&mut out, ":");
    push_decimal(&mut out, a.port as u64);
    assert(out@ =~= vsock_address_text(*a));
    string_from_chars(out)
}

/// Law: reading back a shown vsock address gives the address, whenever
/// its context id is not 0 (0 is read as "any").
pub proof fn lemma_vsock_address_roundtrip(a: VsockAddress)
    requires
        a.cid != 0,
    ensures
        spec_parse_vsock_address(vsock_address_text(a)) == Ok::<VsockAddress, crate::parsers::SocketAddressError>(a),
{
    reveal_strlit(":");
    let c: nat = if a.cid == VMADDR_CID_ANY {
        0
    } else {
        a.cid as nat
    };
    let dc = decimal(c);
    let dp = decimal(a.port as nat);
    let s = vsock_address_text(a);
    assert(s == dc + ":"@ + dp);
    lemma_decimal_digits(c);
    lemma_decimal_roundtrip(c, 0xffff_ffff);
    lemma_decimal_roundtrip(a.port as nat, 0xffff_ffff);
    lemma_find_first(s, is_char(':'));
    assert(s[dc.len() as int] == ':');
    assert forall|j: int| 0 <= j < dc.len() implies !is_char(':')(#[trigger] s[j]) by {
        assert(s[j] == dc[j]);
        assert(is_digit(dc[j]));
    }
    assert(s.subrange(0, dc.len() as int) =~= dc);
    assert(s.subrange(dc.len() as int + 1, s.len() as int) =~= dp);
}

/// `a.b.c.d:port`.
pub open spec fn ipv4_socket_address_text(a: Ipv4SocketAddress) -> Seq<char> {
    ipv4_text(a.ip) + ":"@ + decimal(a.port as nat)
}

/// Shows an IPv4 socket address as `a.b.c.d:port`.
pub fn display_ipv4_socket_address(a: &Ipv4SocketAddress) -> (s: String)
    ensures
        s@ == ipv4_socket_address_text(*a),
{
    let mut out: Vec<char> = Vec::new();
    push_decimal(&mut out, a.ip.0 as u64);
    push_str(&mut out, ".");
    push_decimal(&mut out, a.ip.1 as u64);
    push_str(&mut out, ".");
    push_decimal(&mut out, a.ip.2 as u64);
    push_str(&mut out, ".");
    push_decimal(&mut out, a.ip.3 as u64);
    push_str(&mut out, ":");
    push_decimal(&mut out, a.port as u64);
    assert(out@ =~= ipv4_socket_address_text(*a));
    string_from_chars(out)
}

proof fn lemma_octet_roundtrip(n: u8)
    ensures
        spec_octet(decimal(n as nat)) == Some(n),
{
    lemma_decimal_len_small(n as nat);
    lemma_decimal_digits(n as nat);
    lemma_decimal_parses(n as nat, 255);
    if n >= 1 {
        lemma_decimal_no_leading_zero(n as nat);
    }
}

proof fn lemma_no_char_in_decimal(n: nat, c: char)
    requires
        !is_digit(c),
    ensures
        index_of(decimal(n), c) is None,
{
    lemma_decimal_digits(n);
    lemma_find_first(decimal(n), is_char(c));
    if let Some(i) = index_of(decimal(n), c) {
        assert(is_digit(decimal(n)[i]));
    }
}

/// Law: reading back a shown IPv4 address gives the address.
pub proof fn lemma_ipv4_address_roundtrip(a: Ipv4Address)
    ensures
        spec_parse_ipv4_address(ipv4_text(a)) == Some(a),
{
    reveal_strlit(".");
    assert("."@ =~= seq!['.']);
    let d0 = decimal(a.0 as nat);
    let d1 = decimal(a.1 as nat);
    let d2 = decimal(a.2 as nat);
    let d3 = decimal(a.3 as nat);
    let r2 = d2 + seq!['.'] + d3;
    let r1 = d1 + seq!['.'] + r2;
    let s = d0 + seq!['.'] + r1;
    assert(ipv4_text(a) =~= s);
    lemma_no_char_in_decimal(a.0 as nat, '.');
    lemma_no_char_in_decimal(a.1 as nat, '.');
    lemma_no_char_in_decimal(a.2 as nat, '.');
    lemma_split_once_joined(d0, '.', r1);
    lemma_split_once_joined(d1, '.', r2);
    lemma_split_once_joined(d2, '.', d3);
    lemma_octet_roundtrip(a.0);
    lemma_octet_roundtrip(a.1);
    lemma_octet_roundtrip(a.2);
    lemma_octet_roundtrip(a.3);
    assert(dotted(d3, 1) == Some(seq![a.3]));
    assert(dotted(r2, 2) == Some(seq![a.2] + seq![a.3]));
    assert(dotted(r1, 3) == Some(seq![a.1] + (seq![a.2] + seq![a.3])));
    let o = seq![a.0] + (seq![a.1] + (seq![a.2] + seq![a.3]));
    assert(dotted(s, 4) == Some(o));
    assert(o[0] == a.0 && o[1] == a.1 && o[2] == a.2 && o[3] == a.3);
}

proof fn lemma_no_colon_in_ipv4_text(a: Ipv4Address)
    ensures
        index_of(ipv4_text(a), ':') is None,
{
    reveal_strlit(".");
    assert("."@ =~= seq!['.']);
    let t = ipv4_text(a);
    lemma_decimal_digits(a.0 as nat);
    lemma_decimal_digits(a.1 as nat);
    lemma_decimal_digits(a.2 as nat);
    lemma_decimal_digits(a.3 as nat);
    lemma_find_first(t, is_char(':'));
    if let Some(i) = index_of(t, ':') {
        let d0 = decimal(a.0 as nat);
        let d1 = decimal(a.1 as nat);
        let d2 = decimal(a.2 as nat);
        let d3 = decimal(a.3 as nat);
        assert(t =~= d0 + seq!['.'] + d1 + seq!['.'] + d2 + seq!['.'] + d3);
        let l0 = d0.len() as int;
        let l1 = l0 + 1 + d1.len();
        let l2 = l1 + 1 + d2.len();
        if i < l0 {
            assert(t[i] == d0[i]);
        } else if i == l0 || i == l1 || i == l2 {
        } else if i < l1 {
            assert(t[i] == d1[i - l0 - 1]);
        } else if i < l2 {
            assert(t[i] == d2[i - l1 - 1]);
        } else {
            assert(t[i] == d3[i - l2 - 1]);
        }
    }
}

/// Law: reading back a shown IPv4 socket address gives the address.
pub proof fn lemma_ipv4_socket_address_roundtrip(a: Ipv4SocketAddress)
    ensures
        spec_parse_ipv4_socket_address(ipv4_socket_address_text(a)) == Ok::<
            Ipv4SocketAddress,
            crate::parsers::Ipv4SocketAddressError,
        >(a),
{
    reveal_strlit(":");
    assert(":"@ =~= seq![':']);
    let t = ipv4_text(a.ip);
    let p = decimal(a.port as nat);
    assert(ipv4_socket_address_text(a) =~= t + seq![':'] + p);
    lemma_no_colon_in_ipv4_text(a.ip);
    lemma_split_once_joined(t, ':', p);
    lemma_ipv4_address_roundtrip(a.ip);
    lemma_decimal_roundtrip(a.port as nat, 0xffff);
}

// ------------------------------------------------------------------------
// The ephemeral port range

/// Whether `c` is white space as Unicode defines it (what Rust's
/// `char::is_whitespace` tests).
pub open spec fn is_whitespace(c: char) -> bool {
    ('\u{9}' <= c && c <= '\u{d}') || c == ' ' || c == '\u{85}' || c == '\u{a0}' || c
        == '\u{1680}' || ('\u{2000}' <= c && c <= '\u{200a}') || c == '\u{2028}' || c == '\u{2029}'
        || c == '\u{202f}' || c == '\u{205f}' || c == '\u{3000}'
}

fn char_is_whitespace(c: char) -> (r: bool)
    ensures
        r == is_whitespace(c),
{
    ('\u{9}' <= c && c <= '\u{d}') || c == ' ' || c == '\u{85}' || c == '\u{a0}' || c == '\u{1680}'
        || ('\u{2000}' <= c && c <= '\u{200a}') || c == '\u{2028}' || c == '\u{2029}' || c
        == '\u{202f}' || c == '\u{205f}' || c == '\u{3000}'
}

/// The first index at or after `i` that is not white space (or the end).
pub open spec fn skip_whitespace(s: Seq<char>, i: int) -> int
    decreases s.len() - i,
{
    if 0 <= i < s.len() && is_whitespace(s[i]) {
        skip_whitespace(s, i + 1)
    } else {
        i
    }
}

/// The first index at or after `i` that is white space (or the end).
pub open spec fn token_end(s: Seq<char>, i: int) -> int
    decreases s.len() - i,
{
    if 0 <= i < s.len() && !is_whitespace(s[i]) {
        token_end(s, i + 1)
    } else {
        i
    }
}

/// The bounds of the next whitespace-separated word at or after `i`.
pub open spec fn next_token(s: Seq<char>, i: int) -> Option<(int, int)> {
    let a = skip_whitespace(s, i);
    if a >= s.len() {
        None
    } else {
        Some((a, token_end(s, a)))
    }
}

proof fn lemma_skip_whitespace(s: Seq<char>, i: int)
    requires
        0 <= i <= s.len(),
    ensures
        i <= skip_whitespace(s, i) <= s.len(),
    decreases s.len() - i,
{
    if i < s.len() && is_whitespace(s[i]) {
        lemma_skip_whitespace(s, i + 1);
    }
}

proof fn lemma_token_end(s: Seq<char>, i: int)
    requires
        0 <= i <= s.len(),
    ensures
        i <= token_end(s, i) <= s.len(),
    decreases s.len() - i,
{
    if i < s.len() && !is_whitespace(s[i]) {
        lemma_token_end(s, i + 1);
    }
}

fn find_token(chars: &Vec<char>, start: usize) -> (r: Option<(usize, usize)>)
    requires
        start <= chars@.len(),
    ensures
        match next_token(chars@, start as int) {
            Some((a, b)) => r == Some((a as usize, b as usize)) && start <= a < b <= chars@.len(),
            None => r is None,
        },
        r matches Some((x, y)) ==> start <= x < y <= chars@.len(),
{
    let n = chars.len();
    let mut i: usize = start;
    proof {
        lemma_skip_whitespace(chars@, start as int);
    }
    while i < n && char_is_whitespace(chars[i])
        invariant
            start <= i <= n,
            n == chars@.len(),
            skip_whitespace(chars@, start as int) == skip_whitespace(chars@, i as int),
        decreases n - i,
    {
        i += 1;
    }
    if i >= n {
        return None;
    }
    let a = i;
    proof {
        lemma_token_end(chars@, a as int);
    }
    while i < n && !char_is_whitespace(chars[i])
        invariant
            a <= i <= n,
            n == chars@.len(),
            token_end(chars@, a as int) == token_end(chars@, i as int),
        decreases n - i,
    {
        i += 1;
    }
    Some((a, i))
}

/// What writing the ephemeral port range `from`–`to` does, given the
/// current content `s` of the kernel's range file (two numbers separated
/// by white space): `None` when the range is already set, otherwise the
/// content to write; `Err` with the reason when the content is unreadable.
pub open spec fn spec_plan_ephemeral_ports(s: Seq<char>, from: u16, to: u16) -> Result<
    Option<Seq<char>>,
    Seq<char>,
> {
    match next_token(s, 0) {
        None => Err("missing start port"@),
        Some((a, b)) => match parse_unsigned(s.subrange(a, b), 0xffff) {
            Err(k) => Err(k.spec_description()),
            Ok(prev_from) => match next_token(s, b) {
                None => Err("missing end port"@),
                Some((c, d)) => match parse_unsigned(s.subrange(c, d), 0xffff) {
                    Err(k) => Err(k.spec_description()),
                    Ok(prev_to) => if from == prev_from && to == prev_to {
                        Ok(None)
                    } else {
                        Ok(Some(decimal(from as nat) + " "@ + decimal(to as nat) + "\n"@))
                    },
                },
            },
        },
    }
}

proof fn lemma_token_end_run(s: Seq<char>, i: int, j: int)
    requires
        0 <= i <= j <= s.len(),
        forall|k: int| i <= k < j ==> !is_whitespace(#[trigger] s[k]),
        j == s.len() || is_whitespace(s[j]),
    ensures
        token_end(s, i) == j,
    decreases j - i,
{
    if i < j {
        lemma_token_end_run(s, i + 1, j);
    }
}

/// The content written for the range `from`–`to` reads back as that range:
/// its first word is the decimal `from` and its second the decimal `to`.
proof fn lemma_range_content_tokens(from: u16, to: u16)
    ensures
        ({
            let t = decimal(from as nat) + " "@ + decimal(to as nat) + "\n"@;
            let nf = decimal(from as nat).len() as int;
            let nt = decimal(to as nat).len() as int;
            &&& next_token(t, 0) == Some((0int, nf))
            &&& next_token(t, nf) == Some((nf + 1, nf + 1 + nt))
            &&& t.subrange(0, nf) == decimal(from as nat)
            &&& t.subrange(nf + 1, nf + 1 + nt) == decimal(to as nat)
        }),
{
    reveal_strlit(" ");
    reveal_strlit("\n");
    let df = decimal(from as nat);
    let dt = decimal(to as nat);
    let t = df + " "@ + dt + "\n"@;
    let nf = df.len() as int;
    let nt = dt.len() as int;
    lemma_decimal_digits(from as nat);
    lemma_decimal_digits(to as nat);
    assert(t.len() == nf + nt + 2);
    assert forall|k: int| 0 <= k < nf implies !is_whitespace(#[trigger] t[k]) by {
        assert(t[k] == df[k]);
        assert(is_digit(df[k]));
    }
    assert(t[nf] == ' ');
    assert(is_whitespace(t[nf]));
    lemma_token_end_run(t, 0, nf);
    assert(!is_whitespace(t[0]));
    assert(skip_whitespace(t, 0) == 0);
    assert forall|k: int| nf + 1 <= k < nf + 1 + nt implies !is_whitespace(#[trigger] t[k]) by {
        assert(t[k] == dt[k - nf - 1]);
        assert(is_digit(dt[k - nf - 1]));
    }
    assert(t[nf + 1 + nt] == '\n');
    lemma_token_end_run(t, nf + 1, nf + 1 + nt);
    assert(!is_whitespace(t[nf + 1]));
    assert(skip_whitespace(t, nf + 1) == nf + 1);
    assert(skip_whitespace(t, nf) == skip_whitespace(t, nf + 1));
    assert(t.subrange(0, nf) =~= df);
    assert(t.subrange(nf + 1, nf + 1 + nt) =~= dt);
}

/// Law: once the content that a plan asked for is written, planning the
/// same range again finds nothing to do.
pub proof fn lemma_plan_ephemeral_ports_settles(s: Seq<char>, from: u16, to: u16)
    requires
        spec_plan_ephemeral_ports(s, from, to) matches Ok(Some(_)),
    ensures
        spec_plan_ephemeral_ports(s, from, to) matches Ok(Some(t))
            && spec_plan_ephemeral_ports(t, from, to) == Ok::<Option<Seq<char>>, Seq<char>>(None),
{
    lemma_range_content_tokens(from, to);
    lemma_decimal_roundtrip(from as nat, 0xffff);
    lemma_decimal_roundtrip(to as nat, 0xffff);
}

/// Law: when the range file holds two readable port numbers, the plan
/// writes nothing exactly when they are `from` and `to`; otherwise it
/// writes `from to` and a newline, which reads back as `from` and `to`.
/// When the file holds fewer than two readable numbers the plan fails.
pub proof fn lemma_plan_ephemeral_ports_outcome(s: Seq<char>, from: u16, to: u16)
    ensures
        ({
            let plan = spec_plan_ephemeral_ports(s, from, to);
            match next_token(s, 0) {
                Some((a, b)) => match (parse_unsigned(s.subrange(a, b), 0xffff), next_token(s, b)) {
                    (Ok(prev_from), Some((c, d))) => match parse_unsigned(s.subrange(c, d), 0xffff) {
                        Ok(prev_to) => {
                            &&& (plan is Ok)
                            &&& (plan == Ok::<Option<Seq<char>>, Seq<char>>(None) <==> (prev_from
                                == from && prev_to == to))
                            &&& (plan matches Ok(Some(t)) ==> t == decimal(from as nat) + " "@
                                + decimal(to as nat) + "\n"@)
                        },
                        Err(_) => plan is Err,
                    },
                    _ => plan is Err,
                },
                None => plan is Err,
            }
        }),
        spec_plan_ephemeral_ports(s, from, to) matches Ok(Some(t)) ==> ({
            let nf = decimal(from as nat).len() as int;
            let nt = decimal(to as nat).len() as int;
            &&& next_token(t, 0) == Some((0int, nf))
            &&& parse_unsigned(t.subrange(0, nf), 0xffff) == Ok::<int, IntErrorKind>(from as int)
            &&& next_token(t, nf) == Some((nf + 1, nf + 1 + nt))
            &&& parse_unsigned(t.subrange(nf + 1, nf + 1 + nt), 0xffff) == Ok::<int, IntErrorKind>(
                to as int,
            )
        }),
{
    lemma_range_content_tokens(from, to);
    lemma_decimal_roundtrip(from as nat, 0xffff);
    lemma_decimal_roundtrip(to as nat, 0xffff);
}

fn invalid_data(message: &str) -> (e: Error)
    ensures
        e matches Error::IoIpv4Tcp(f) && f.kind == IoErrorKind::InvalidData && f.raw_os_error is None
            && f.message@ == message@,
{
    Error::IoIpv4Tcp(
        IoFailure {
            kind: IoErrorKind::InvalidData,
            raw_os_error: None,
            message: crate::text::string_of(message),
        },
    )
}

/// Decides how to set the ephemeral port range to `from`–`to`, given the
/// current content of the kernel's range file: `Ok(None)` when it is
/// already set, `Ok(Some(content))` with the content to write otherwise.
/// Unreadable content is an `IoIpv4Tcp` error with the reason.
pub fn plan_ephemeral_ports(current: &str, from: u16, to: u16) -> (r: Result<Option<String>, Error>)
    ensures
        match spec_plan_ephemeral_ports(current@, from, to) {
            Ok(None) => r matches Ok(None),
            Ok(Some(t)) => r matches Ok(Some(s)) && s@ == t,
            Err(m) => r matches Err(Error::IoIpv4Tcp(f)) && f.kind == IoErrorKind::InvalidData
                && f.raw_os_error is None && f.message@ == m,
        },
{
    let chars = chars_of(current);
    let (a, b) = match find_token(&chars, 0) {
        Some(t) => t,
        None => return Err(invalid_data("missing start port")),
    };
    let prev_from = match parse_unsigned_chars(&chars, a, b, 0xffff) {
        Ok(v) => v,
        Err(k) => return Err(invalid_data(k.description())),
    };
    let (c, d) = match find_token(&chars, b) {
        Some(t) => t,
        None => return Err(invalid_data("missing end port")),
    };
    let prev_to = match parse_unsigned_chars(&chars, c, d, 0xffff) {
        Ok(v) => v,
        Err(k) => return Err(invalid_data(k.description())),
    };
    if from as u64 == prev_from && to as u64 == prev_to {
        Ok(None)
    } else {
        let mut out: Vec<char> = Vec::new();
        push_decimal(&mut out, from as u64);
        push_str(&mut out, " ");
        push_decimal(&mut out, to as u64);
        push_str(&mut out, "\n");
        assert(out@ =~= decimal(from as nat) + " "@ + decimal(to as nat) + "\n"@);
        Ok(Some(string_from_chars(out)))
    }
}

// ------------------------------------------------------------------------
// Interface flags

/// The interface flag that marks an interface as up, as an `ifreq` holds it.
pub const IFF_UP_SHORT: i16 = 0x1;

/// The flags to set to bring an interface with flags `prev` up; `None`
/// when it is already up.
pub fn interface_up_flags(prev: i16) -> (r: Option<i16>)
    ensures
        prev & IFF_UP_SHORT != 0 ==> r is None,
        prev & IFF_UP_SHORT == 0 ==> r == Some(prev | IFF_UP_SHORT),
{
    if prev & IFF_UP_SHORT != 0 {
        None
    } else {
        Some(prev | IFF_UP_SHORT)
    }
}

// ------------------------------------------------------------------------
// vsock peers

/// Accepts a vsock connection only from the expected peer context id.
pub fn check_peer_cid(peer_cid: u32, expected_cid: u32) -> (r: Result<(), Error>)
    ensures
        r is Ok <==> peer_cid == expected_cid,
        r matches Err(e) ==> e is GlycerineUnexpectedCid,
{
    if peer_cid != expected_cid {
        return Err(Error::GlycerineUnexpectedCid);
    }
    Ok(())
}

// ------------------------------------------------------------------------
// Interface settings

/// The MTU to set on an interface whose MTU is `current`, when `wanted` is
/// asked for; `None` when it is already set.
pub fn mtu_update(current: i32, wanted: i32) -> (r: Option<i32>)
    ensures
        current == wanted ==> r is None,
        current != wanted ==> r == Some(wanted),
{
    if current == wanted {
        None
    } else {
        Some(wanted)
    }
}

/// The Linux error number for "file exists".
pub const EEXIST: i32 = 17;

/// Whether adding an address failed only because the interface already
/// has it: netlink reported the negated error number `EEXIST`.
pub fn address_already_present(code: Option<i32>) -> (r: bool)
    ensures
        r <==> (code matches Some(c) && c == -EEXIST),
{
    match code {
        Some(c) => c == -EEXIST,
        None => false,
    }
}

/// The number of the main routing table.
pub const RT_TABLE_MAIN: u8 = 254;

/// Whether a route of the interface is one of the default routes of the
/// main table, which are deleted before the proxy's own default route is
/// added; the deletion stops at the first route that is not.
pub fn is_main_default_route(table: u8, destination_prefix_length: u8) -> (r: bool)
    ensures
        r == (table == RT_TABLE_MAIN && destination_prefix_length == 0),
{
    table == RT_TABLE_MAIN && destination_prefix_length == 0
}

} // verus!
