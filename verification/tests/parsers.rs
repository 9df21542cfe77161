use glycerine::cli::{Ipv4SocketAddress, VsockAddress};
use glycerine::decimal::{decimal_string, parse_u16, parse_u32, IntErrorKind};
use glycerine::packet::Ipv4Address;
use glycerine::parsers::{
    clap_error_message, parse_ipv4_address, parse_ipv4_socket_address, parse_port_range,
    parse_vsock_address, Ipv4SocketAddressError, PortRangeError, SocketAddressError,
};

#[test]
fn renders_decimals() {
    assert_eq!(decimal_string(0), "0");
    assert_eq!(decimal_string(7), "7");
    assert_eq!(decimal_string(10), "10");
    assert_eq!(decimal_string(18446744073709551615), "18446744073709551615");
}

#[test]
fn parses_ports_like_std() {
    assert_eq!(parse_u16("443"), Ok(443));
    assert_eq!(parse_u16("+443"), Ok(443));
    assert_eq!(parse_u16("0065535"), Ok(65535));
    assert_eq!(parse_u16(""), Err(IntErrorKind::Empty));
    assert_eq!(parse_u16("+"), Err(IntErrorKind::InvalidDigit));
    assert_eq!(parse_u16("-"), Err(IntErrorKind::InvalidDigit));
    assert_eq!(parse_u16("-1"), Err(IntErrorKind::InvalidDigit));
    assert_eq!(parse_u16("65536"), Err(IntErrorKind::PosOverflow));
    assert_eq!(parse_u16("99999x"), Err(IntErrorKind::PosOverflow));
    assert_eq!(parse_u16("1x99999"), Err(IntErrorKind::InvalidDigit));
    assert_eq!(parse_u16(" 1"), Err(IntErrorKind::InvalidDigit));
    for s in ["0", "+12", "65535", "65536", "", "-3", "12a", "٣"] {
        assert_eq!(parse_u16(s).ok(), s.parse::<u16>().ok(), "{s}");
    }
    assert_eq!(parse_u32("4294967295"), Ok(4294967295));
    assert_eq!(parse_u32("4294967296"), Err(IntErrorKind::PosOverflow));
}

#[test]
fn describes_integer_errors_like_std() {
    assert_eq!(
        IntErrorKind::Empty.description(),
        "".parse::<u16>().unwrap_err().to_string()
    );
    assert_eq!(
        IntErrorKind::InvalidDigit.description(),
        "x".parse::<u16>().unwrap_err().to_string()
    );
    assert_eq!(
        IntErrorKind::PosOverflow.description(),
        "70000".parse::<u16>().unwrap_err().to_string()
    );
}

#[test]
fn decimal_roundtrip_on_samples() {
    for n in [0u16, 1, 9, 10, 99, 100, 1460, 65535] {
        assert_eq!(parse_u16(&decimal_string(n as u64)), Ok(n));
    }
}

#[test]
fn parses_port_ranges() {
    assert_eq!(parse_port_range("80"), Ok((80, 80)));
    assert_eq!(parse_port_range("40000-60999"), Ok((40000, 60999)));
    assert_eq!(parse_port_range("60999-40000"), Ok((40000, 60999)));
    assert_eq!(parse_port_range("1-2-3"), Err(PortRangeError::InvalidRange));
    assert_eq!(parse_port_range("x-3"), Err(PortRangeError::InvalidPort(IntErrorKind::InvalidDigit)));
    assert_eq!(parse_port_range("3-"), Err(PortRangeError::InvalidPort(IntErrorKind::Empty)));
    assert_eq!(parse_port_range("70000"), Err(PortRangeError::InvalidPort(IntErrorKind::PosOverflow)));
    assert_eq!(PortRangeError::InvalidRange.message(), "invalid port range");
    assert_eq!(
        PortRangeError::InvalidPort(IntErrorKind::Empty).message(),
        "invalid port: cannot parse integer from empty string"
    );
}

#[test]
fn port_range_is_symmetric_on_samples() {
    assert_eq!(parse_port_range("5-9"), parse_port_range("9-5"));
    assert_eq!(parse_port_range("7-7"), Ok((7, 7)));
}

#[test]
fn parses_vsock_addresses() {
    assert_eq!(parse_vsock_address("3:5000"), Ok(VsockAddress { cid: 3, port: 5000 }));
    assert_eq!(parse_vsock_address("0:5000"), Ok(VsockAddress { cid: 0xFFFF_FFFF, port: 5000 }));
    assert_eq!(parse_vsock_address("35000"), Err(SocketAddressError::MissingColon));
    assert_eq!(
        parse_vsock_address("a:1"),
        Err(SocketAddressError::InvalidCid(IntErrorKind::InvalidDigit))
    );
    assert_eq!(
        parse_vsock_address("1:2:3"),
        Err(SocketAddressError::InvalidPort(IntErrorKind::InvalidDigit))
    );
    assert_eq!(SocketAddressError::MissingColon.message(), "missing colon");
    assert_eq!(
        SocketAddressError::InvalidCid(IntErrorKind::PosOverflow).message(),
        "invalid cid: number too large to fit in target type"
    );
}

#[test]
fn parses_ipv4_addresses_like_std() {
    assert_eq!(parse_ipv4_address("1.1.1.1"), Some(Ipv4Address(1, 1, 1, 1)));
    assert_eq!(parse_ipv4_address("192.0.2.255"), Some(Ipv4Address(192, 0, 2, 255)));
    assert_eq!(parse_ipv4_address("0.0.0.0"), Some(Ipv4Address(0, 0, 0, 0)));
    assert_eq!(parse_ipv4_address("255.255.255.255"), Some(Ipv4Address(255, 255, 255, 255)));
    for s in [
        "01.1.1.1", "1.1.1", "1.1.1.1.1", "256.1.1.1", "1..1.1", "1.1.1.1 ", "+1.1.1.1",
        "1.1.1.0001", "a.b.c.d", "", "1.1.1.00",
    ] {
        assert_eq!(parse_ipv4_address(s), None, "{s}");
    }
}

#[test]
fn parses_ipv4_socket_addresses() {
    assert_eq!(
        parse_ipv4_socket_address("1.1.1.1:1111"),
        Ok(Ipv4SocketAddress { ip: Ipv4Address(1, 1, 1, 1), port: 1111 })
    );
    assert_eq!(parse_ipv4_socket_address("1.1.1.1"), Err(Ipv4SocketAddressError::MissingColon));
    assert_eq!(
        parse_ipv4_socket_address("1.1.1:1"),
        Err(Ipv4SocketAddressError::InvalidAddress)
    );
    assert_eq!(
        parse_ipv4_socket_address("1.1.1.1:x"),
        Err(Ipv4SocketAddressError::InvalidPort(IntErrorKind::InvalidDigit))
    );
    assert_eq!(
        Ipv4SocketAddressError::InvalidAddress.message(),
        "invalid ipv4 address: invalid IPv4 address syntax"
    );
}

#[test]
fn formats_value_errors() {
    assert_eq!(
        clap_error_message("", None, "invalid utf-8"),
        "invalid value for one of the arguments: invalid utf-8\n"
    );
    assert_eq!(
        clap_error_message("", Some("--interface <device>"), "invalid utf-8"),
        "invalid value for `--interface <device>`: invalid utf-8\n"
    );
    assert_eq!(
        clap_error_message("x", None, "missing colon"),
        "invalid value `x` for one of the arguments: missing colon\n"
    );
    assert_eq!(
        clap_error_message("x", Some("--port"), "missing colon"),
        "invalid value `x` for `--port`: missing colon\n"
    );
}
