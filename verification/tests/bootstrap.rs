use glycerine::bootstrap::{
    bootstrap_keeps_serving, enclave_network, enclave_source_port_ranges,
    host_destination_port_ranges, next_record_buffer_len, Record, RecordInterface, RecordPortRange,
    RecordPorts, MAX_RECORD_SIZE,
};
use glycerine::cli::{CliHost, Ipv4SocketAddress, VsockAddress};
use glycerine::error::{Error, IoErrorKind, IoFailure};
use glycerine::interfaces::{IpNetwork, Ipv4Network, Ipv6Network, NetworkInterface};
use glycerine::packet::Ipv4Address;

fn interfaces() -> Vec<NetworkInterface> {
    vec![
        NetworkInterface {
            name: String::from("lo"),
            flags: 0x9,
            ips: vec![IpNetwork::V4(Ipv4Network { ip: Ipv4Address(127, 0, 0, 1), prefix: 8 })],
        },
        NetworkInterface {
            name: String::from("eth0"),
            flags: 0x1043,
            ips: vec![
                IpNetwork::V6(Ipv6Network { segments: [0xfe80, 0, 0, 0, 0, 0, 0, 1], prefix: 64 }),
                IpNetwork::V4(Ipv4Network { ip: Ipv4Address(10, 0, 1, 7), prefix: 24 }),
                IpNetwork::V4(Ipv4Network { ip: Ipv4Address(10, 0, 2, 7), prefix: 16 }),
            ],
        },
        NetworkInterface {
            name: String::from("eth1"),
            flags: 0x1043,
            ips: vec![IpNetwork::V6(Ipv6Network { segments: [0xfe80, 0, 0, 0, 0, 0, 0, 2], prefix: 64 })],
        },
    ]
}

fn host() -> CliHost {
    CliHost {
        interface: String::from("eth0"),
        enclave_ports: vec![(443, 443), (8000, 8100)],
        enclave_ephemeral_ports: (40000, 60999),
        host_ephemeral_ports: (32768, 39999),
        bootstrap_vsock_address: VsockAddress { cid: 0xFFFF_FFFF, port: 5000 },
        setup_only: false,
        ingress_netfilter_queue_num: 1,
        ingress_vsock_address: VsockAddress { cid: 16, port: 5001 },
        egress_vsock_address: VsockAddress { cid: 0xFFFF_FFFF, port: 5002 },
        egress_ipv4_sink_address: Ipv4SocketAddress { ip: Ipv4Address(1, 1, 1, 1), port: 1111 },
    }
}

fn failure_message(e: Error) -> String {
    match e {
        Error::IoIpv4Tcp(f) => f.message,
        _ => panic!("expected an ipv4 failure"),
    }
}

#[test]
fn describes_the_proxied_interface() {
    let ifaces = interfaces();
    let ri = RecordInterface::new("eth0", &ifaces, Ok(9001)).ok().unwrap();
    assert_eq!(ri.ipv4_network_address, "10.0.1.7/24");
    assert_eq!(ri.mtu, 9001);
}

#[test]
fn reports_interface_lookup_failures_first() {
    let ifaces = interfaces();
    let e = RecordInterface::new("eth9", &ifaces, Ok(1500)).err().unwrap();
    assert_eq!(failure_message(e), "unknown interface: eth9");
    let e = RecordInterface::new("eth1", &ifaces, Ok(1500)).err().unwrap();
    assert_eq!(failure_message(e), "interface has no ipv4 address: eth1");
    let e = RecordInterface::new("eth9", &ifaces, Err(Error::Nix(String::from("ENODEV: No such device"))))
        .err()
        .unwrap();
    assert_eq!(failure_message(e), "unknown interface: eth9");
    let e = RecordInterface::new("eth0", &ifaces, Err(Error::Nix(String::from("ENODEV: No such device"))))
        .err()
        .unwrap();
    assert_eq!(e.message(), "nix: ENODEV: No such device");
}

#[test]
fn builds_the_bootstrap_record() {
    let ifaces = interfaces();
    let rec = Record::new(&host(), &ifaces, Ok(1500)).ok().unwrap();
    assert_eq!(rec.interface.ipv4_network_address, "10.0.1.7/24");
    assert_eq!(rec.interface.mtu, 1500);
    assert_eq!(rec.ports.ephemeral, RecordPortRange { from: 40000, to: 60999 });
    assert_eq!(
        rec.ports.service,
        vec![RecordPortRange { from: 443, to: 443 }, RecordPortRange { from: 8000, to: 8100 }]
    );
    assert_eq!(enclave_source_port_ranges(&rec), vec![(443, 443), (8000, 8100), (40000, 60999)]);
    assert_eq!(host_destination_port_ranges(&host()), vec![(443, 443), (8000, 8100), (40000, 60999)]);
}

#[test]
fn reads_the_enclave_network() {
    let rec = Record {
        interface: RecordInterface { ipv4_network_address: String::from("10.0.1.7/24"), mtu: 1500 },
        ports: RecordPorts { ephemeral: RecordPortRange { from: 1, to: 2 }, service: vec![] },
    };
    assert_eq!(
        enclave_network(&rec).ok(),
        Some(Ipv4Network { ip: Ipv4Address(10, 0, 1, 7), prefix: 24 })
    );
    let rec = Record {
        interface: RecordInterface { ipv4_network_address: String::from("10.0.1.7/33"), mtu: 1500 },
        ports: RecordPorts { ephemeral: RecordPortRange { from: 1, to: 2 }, service: vec![] },
    };
    match enclave_network(&rec) {
        Err(e) => assert_eq!(e.message(), "network: invalid prefix"),
        Ok(_) => panic!("accepted a prefix of 33 bits"),
    }
}

#[test]
fn grows_the_record_buffer_up_to_the_limit() {
    assert_eq!(next_record_buffer_len(10, 4096).ok(), Some(4096));
    assert_eq!(next_record_buffer_len(4096, 4096).ok(), Some(8192));
    assert_eq!(next_record_buffer_len(786432, 786432).ok(), Some(MAX_RECORD_SIZE));
    match next_record_buffer_len(MAX_RECORD_SIZE, MAX_RECORD_SIZE) {
        Err(e) => {
            assert_eq!(e.message(), "io-vsock: bootstrap record exceeds maximum size");
            assert!(matches!(e, Error::IoVsock(IoFailure { kind: IoErrorKind::InvalidData, .. })));
        },
        Ok(_) => panic!("grew past the largest record"),
    }
}

#[test]
fn keeps_serving_after_vsock_failures() {
    assert!(bootstrap_keeps_serving(&Ok(())));
    assert!(bootstrap_keeps_serving(&Err(Error::IoVsock(IoFailure {
        kind: IoErrorKind::BrokenPipe,
        raw_os_error: Some(32),
        message: String::from("Broken pipe (os error 32)"),
    }))));
    assert!(!bootstrap_keeps_serving(&Err(Error::GlycerineShutdown)));
}

#[test]
fn the_enclave_reads_back_the_host_network() {
    let ifaces = interfaces();
    let rec = Record::new(&host(), &ifaces, Ok(1500)).ok().unwrap();
    assert_eq!(
        enclave_network(&rec).ok(),
        Some(Ipv4Network { ip: Ipv4Address(10, 0, 1, 7), prefix: 24 })
    );
}
