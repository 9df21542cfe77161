use glycerine::interfaces::{
    find_interface, get_default_network_interface, get_interface_address, ipv4_network_string,
    IpNetwork, Ipv4Network, Ipv6Network, NetworkInterface,
};
use glycerine::packet::Ipv4Address;

fn iface(name: &str, flags: u32, ips: Vec<IpNetwork>) -> NetworkInterface {
    NetworkInterface { name: String::from(name), flags, ips }
}

fn v4(a: u8, b: u8, c: u8, d: u8, prefix: u8) -> IpNetwork {
    IpNetwork::V4(Ipv4Network { ip: Ipv4Address(a, b, c, d), prefix })
}

#[test]
fn picks_the_first_usable_default_interface() {
    let ifaces = vec![
        iface("lo", 0x9, vec![v4(127, 0, 0, 1, 8)]),
        iface("down0", 0x1000, vec![v4(10, 0, 0, 1, 24)]),
        iface("lonely", 0x1, vec![IpNetwork::V6(Ipv6Network { segments: [0, 0, 0, 0, 0, 0, 0, 1], prefix: 128 })]),
        iface("eth0", 0x1043, vec![v4(10, 0, 0, 2, 24)]),
        iface("eth1", 0x1043, vec![v4(10, 0, 1, 2, 24)]),
    ];
    assert_eq!(get_default_network_interface(&ifaces), Some(String::from("eth0")));
    assert_eq!(get_default_network_interface(&ifaces[..3]), None);
}

#[test]
fn finds_interfaces_by_name() {
    let ifaces = vec![iface("lo", 0x9, vec![]), iface("eth0", 0x1043, vec![])];
    assert_eq!(find_interface("eth0", &ifaces), Some(String::from("eth0")));
    assert_eq!(find_interface("eth", &ifaces), None);
}

#[test]
fn shows_interface_networks() {
    let ifaces = vec![iface("eth0", 0x1043, vec![v4(192, 168, 0, 10, 24)])];
    assert_eq!(get_interface_address("eth0", &ifaces).ok(), Some(String::from("192.168.0.10/24")));
    assert_eq!(
        ipv4_network_string(&Ipv4Network { ip: Ipv4Address(0, 0, 0, 0), prefix: 0 }),
        "0.0.0.0/0"
    );
}

#[test]
fn interface_flags_match_the_kernel() {
    assert_eq!(glycerine::interfaces::IFF_UP, libc::IFF_UP as u32);
    assert_eq!(glycerine::interfaces::IFF_LOOPBACK, libc::IFF_LOOPBACK as u32);
    assert_eq!(glycerine::system::IFF_UP_SHORT, libc::IFF_UP as i16);
}
