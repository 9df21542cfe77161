use glycerine::cli::{
    ensure_no_port_overlaps, CliHost, CliLogging, CliLoggingFormat, Ipv4SocketAddress,
    VsockAddress,
};
use glycerine::error::Error;
use glycerine::packet::Ipv4Address;

fn host(enclave_ports: Vec<(u16, u16)>, enclave_eph: (u16, u16), host_eph: (u16, u16)) -> CliHost {
    CliHost {
        interface: String::from("eth0"),
        enclave_ports,
        enclave_ephemeral_ports: enclave_eph,
        host_ephemeral_ports: host_eph,
        bootstrap_vsock_address: VsockAddress { cid: 0xFFFF_FFFF, port: 5000 },
        setup_only: false,
        ingress_netfilter_queue_num: 1,
        ingress_vsock_address: VsockAddress { cid: 16, port: 5001 },
        egress_vsock_address: VsockAddress { cid: 0xFFFF_FFFF, port: 5002 },
        egress_ipv4_sink_address: Ipv4SocketAddress { ip: Ipv4Address(1, 1, 1, 1), port: 1111 },
    }
}

fn config_error(r: Result<(), Error>) -> String {
    match r {
        Err(Error::GlycerineInvalidConfig(m)) => m,
        _ => panic!("expected a configuration error"),
    }
}

#[test]
fn accepts_disjoint_port_ranges() {
    let cfg = host(vec![(443, 443), (8000, 8100)], (40000, 60999), (32768, 39999));
    assert!(ensure_no_port_overlaps(&cfg).is_ok());
}

#[test]
fn refuses_overlapping_ephemeral_ports() {
    let cfg = host(vec![], (39000, 60999), (32768, 39999));
    assert_eq!(config_error(ensure_no_port_overlaps(&cfg)), "host and enclave ephemeral ports overlap");
    // the enclave range strictly contains the host range
    let cfg = host(vec![], (30000, 60999), (32768, 39999));
    assert_eq!(config_error(ensure_no_port_overlaps(&cfg)), "host and enclave ephemeral ports overlap");
}

#[test]
fn refuses_service_ports_in_ephemeral_ranges() {
    let cfg = host(vec![(443, 443), (33000, 33000)], (40000, 60999), (32768, 39999));
    assert_eq!(
        config_error(ensure_no_port_overlaps(&cfg)),
        "enclave service ports overlap with host ephemeral ports"
    );
    let cfg = host(vec![(30000, 45000)], (40000, 60999), (32768, 32769));
    assert_eq!(
        config_error(ensure_no_port_overlaps(&cfg)),
        "enclave service ports overlap with host ephemeral ports"
    );
    let cfg = host(vec![(50000, 50001)], (40000, 60999), (32768, 39999));
    assert_eq!(
        config_error(ensure_no_port_overlaps(&cfg)),
        "enclave service ports overlap with enclave ephemeral ports"
    );
}

#[test]
fn reads_logging_formats() {
    assert_eq!(CliLoggingFormat::from("json"), CliLoggingFormat::Json);
    assert_eq!(CliLoggingFormat::from("JSON"), CliLoggingFormat::Json);
    assert_eq!(CliLoggingFormat::from("Text"), CliLoggingFormat::Text);
    assert_eq!(CliLoggingFormat::Json.to_string(), "json");
    assert_eq!(CliLoggingFormat::Text.to_string(), "text");
    let d = CliLogging::default();
    assert_eq!(d.format, CliLoggingFormat::Json);
    assert_eq!(d.level, "info");
}
