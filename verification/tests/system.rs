use glycerine::cli::{Ipv4SocketAddress, VsockAddress};
use glycerine::error::{Error, IoErrorKind};
use glycerine::packet::Ipv4Address;
use glycerine::parsers::{parse_ipv4_socket_address, parse_vsock_address};
use glycerine::system::{
    check_peer_cid, display_ipv4_socket_address, display_vsock_address, interface_up_flags, plan_ephemeral_ports,
};

#[test]
fn shows_vsock_addresses() {
    assert_eq!(display_vsock_address(&VsockAddress { cid: 16, port: 5000 }), "16:5000");
    assert_eq!(display_vsock_address(&VsockAddress { cid: 0xFFFF_FFFF, port: 5000 }), "0:5000");
}

#[test]
fn vsock_addresses_read_back() {
    for a in [VsockAddress { cid: 16, port: 5000 }, VsockAddress { cid: 0xFFFF_FFFF, port: 0 }] {
        assert_eq!(parse_vsock_address(&display_vsock_address(&a)), Ok(a));
    }
}

#[test]
fn shows_ipv4_socket_addresses() {
    let a = Ipv4SocketAddress { ip: Ipv4Address(192, 0, 2, 1), port: 443 };
    assert_eq!(display_ipv4_socket_address(&a), "192.0.2.1:443");
}

#[test]
fn plans_ephemeral_port_updates() {
    assert_eq!(plan_ephemeral_ports("32768\t60999\n", 32768, 60999).ok(), Some(None));
    assert_eq!(
        plan_ephemeral_ports("32768\t60999\n", 40000, 60999).ok(),
        Some(Some(String::from("40000 60999\n")))
    );
    assert_eq!(plan_ephemeral_ports("  1 2 3", 1, 2).ok(), Some(None));
    for (content, reason) in [
        ("", "missing start port"),
        ("  \n", "missing start port"),
        ("32768", "missing end port"),
        ("x 1", "invalid digit found in string"),
        ("1 70000", "number too large to fit in target type"),
    ] {
        match plan_ephemeral_ports(content, 1, 2) {
            Err(Error::IoIpv4Tcp(f)) => {
                assert_eq!(f.message, reason);
                assert_eq!(f.kind, IoErrorKind::InvalidData);
            },
            _ => panic!("accepted {content:?}"),
        }
    }
}

#[test]
fn brings_interfaces_up_once() {
    assert_eq!(interface_up_flags(0x1002), Some(0x1003));
    assert_eq!(interface_up_flags(0x1043), None);
}

#[test]
fn ipv4_socket_addresses_read_back() {
    for a in [
        Ipv4SocketAddress { ip: Ipv4Address(0, 0, 0, 0), port: 0 },
        Ipv4SocketAddress { ip: Ipv4Address(10, 100, 255, 9), port: 65535 },
    ] {
        assert_eq!(parse_ipv4_socket_address(&display_ipv4_socket_address(&a)), Ok(a));
    }
}

#[test]
fn checks_vsock_peers() {
    assert!(check_peer_cid(16, 16).is_ok());
    match check_peer_cid(17, 16) {
        Err(e) => {
            assert!(matches!(e, Error::GlycerineUnexpectedCid));
            assert_eq!(e.message(), "glycerine: unexpected peer cid");
        },
        _ => panic!("accepted an unexpected peer"),
    }
}

#[test]
fn planned_range_content_settles() {
    let content = match plan_ephemeral_ports("32768\t60999\n", 40000, 50000) {
        Ok(Some(c)) => c,
        _ => panic!("nothing planned"),
    };
    assert_eq!(content, "40000 50000\n");
    assert_eq!(plan_ephemeral_ports(&content, 40000, 50000).ok(), Some(None));
}

#[test]
fn decides_interface_settings() {
    assert_eq!(glycerine::system::mtu_update(1500, 1500), None);
    assert_eq!(glycerine::system::mtu_update(1500, 9001), Some(9001));
    assert_eq!(glycerine::system::EEXIST, libc::EEXIST);
    assert!(glycerine::system::address_already_present(Some(-libc::EEXIST)));
    assert!(!glycerine::system::address_already_present(Some(-1)));
    assert!(!glycerine::system::address_already_present(None));
    assert_eq!(glycerine::system::RT_TABLE_MAIN, libc::RT_TABLE_MAIN);
    assert!(glycerine::system::is_main_default_route(254, 0));
    assert!(!glycerine::system::is_main_default_route(254, 24));
    assert!(!glycerine::system::is_main_default_route(255, 0));
}
