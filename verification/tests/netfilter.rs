use glycerine::error::Error;
use glycerine::netfilter::{
    egress_ruleset, ingress_ruleset, netfilter_table_name, nul_position, ChainHook, PortMatch,
};
use glycerine::packet::Ipv4Address;

#[test]
fn names_tables_by_protocol_and_queue() {
    assert_eq!(netfilter_table_name(6, 7).ok(), Some(String::from("glycerine-tcp-7")));
    assert_eq!(netfilter_table_name(17, 65535).ok(), Some(String::from("glycerine-udp-65535")));
    match netfilter_table_name(1, 7) {
        Err(e) => {
            assert!(matches!(e, Error::UnsupportedProtocol(1)));
            assert_eq!(e.message(), "unsupported-protocol: IPPROTO_ICMP");
        },
        Ok(_) => panic!("named a table for ICMP"),
    }
    assert_eq!(Error::UnsupportedProtocol(99).message(), "unsupported-protocol: 99");
}

#[test]
fn plans_ingress_rulesets() {
    let rs = ingress_ruleset(3, "eth0", 6, &[(443, 443), (40000, 60999)]).ok().unwrap();
    assert_eq!(rs.table, "glycerine-tcp-3");
    assert_eq!(rs.chain, "PREROUTING");
    assert_eq!(rs.hook, ChainHook::PreRouting);
    assert_eq!(rs.protocol, 6);
    assert_eq!(rs.interface, Some(String::from("eth0")));
    assert_eq!(rs.src_address, None);
    assert_eq!(rs.port_match, PortMatch::Destination);
    assert_eq!(rs.port_ranges, vec![(443, 443), (40000, 60999)]);
    assert_eq!(rs.queue_num, 3);
}

#[test]
fn refuses_interface_names_with_nul() {
    match ingress_ruleset(3, "et\u{e9}\0h", 17, &[]) {
        Err(e) => {
            assert!(matches!(e, Error::CStringNulError(4)));
            assert_eq!(
                e.message(),
                "cstring-nul-error: nul byte found in provided data at position: 4"
            );
        },
        Ok(_) => panic!("accepted a NUL byte"),
    }
    assert_eq!(nul_position("eth0"), None);
    assert!(matches!(ingress_ruleset(3, "a\0", 1, &[]), Err(Error::UnsupportedProtocol(1))));
}

#[test]
fn plans_egress_rulesets() {
    let rs = egress_ruleset(2, 17, Ipv4Address(10, 0, 1, 7), &[(40000, 60999)]).ok().unwrap();
    assert_eq!(rs.table, "glycerine-udp-2");
    assert_eq!(rs.chain, "OUTPUT");
    assert_eq!(rs.hook, ChainHook::Output);
    assert_eq!(rs.protocol, 17);
    assert_eq!(rs.interface, None);
    assert_eq!(rs.src_address, Some(Ipv4Address(10, 0, 1, 7)));
    assert_eq!(rs.port_match, PortMatch::Source);
    assert_eq!(rs.port_ranges, vec![(40000, 60999)]);
}
