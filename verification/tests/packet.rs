use glycerine::packet::{DumpPayload, Ipv4Address, Ipv4Packet, TcpFlags, TcpOptions};

fn packet(version_ihl: u8, total_len: u16, protocol: u8, payload: &[u8]) -> Vec<u8> {
    let mut p = vec![
        version_ihl, 0x00, (total_len >> 8) as u8, (total_len & 0xff) as u8, 0x12, 0x34, 0x40,
        0x00, 0x40, protocol, 0x00, 0x00, 10, 0, 0, 1, 10, 0, 0, 2,
    ];
    p.extend_from_slice(payload);
    p
}

fn tcp_segment(data_offset_words: u8, flags: u8, options: &[u8], data: &[u8]) -> Vec<u8> {
    let mut s = vec![
        0x00, 0x50, 0x1f, 0x90, 0xff, 0xff, 0xff, 0xff, 0x00, 0x00, 0x00, 0x07,
        data_offset_words << 4, flags, 0x01, 0x00, 0x00, 0x00, 0x00, 0x09,
    ];
    s.extend_from_slice(options);
    s.extend_from_slice(data);
    s
}

fn tcp_packet(data_offset_words: u8, flags: u8, options: &[u8], data: &[u8]) -> Vec<u8> {
    let seg = tcp_segment(data_offset_words, flags, options, data);
    packet(0x45, (20 + seg.len()) as u16, 6, &seg)
}

#[test]
fn parses_ipv4_header_fields() {
    let p = packet(0x45, 20, 17, &[]);
    let h = Ipv4Packet::parse(&p).unwrap();
    assert_eq!(h.version, 4);
    assert_eq!(h.header_len, 20);
    assert_eq!(h.total_len, 20);
    assert_eq!(h.protocol, 17);
    assert_eq!(h.src, Ipv4Address(10, 0, 0, 1));
    assert_eq!(h.dst, Ipv4Address(10, 0, 0, 2));
}

#[test]
fn refuses_short_or_inconsistent_headers() {
    assert!(Ipv4Packet::parse(&[0x45; 19]).is_none());
    // header length of 16 bytes
    assert!(Ipv4Packet::parse(&packet(0x44, 20, 6, &[])).is_none());
    // header length of 24 bytes, only 20 present
    assert!(Ipv4Packet::parse(&packet(0x46, 20, 6, &[])).is_none());
}

#[test]
fn renders_other_ip_versions() {
    let p = packet(0x65, 20, 6, &[]);
    assert_eq!(DumpPayload(&p).to_string(), "IP6 packet, length 20");
}

#[test]
fn renders_invalid_total_length() {
    let p = packet(0x45, 12, 6, &[]);
    assert_eq!(DumpPayload(&p).to_string(), "IP 10.0.0.1 > 10.0.0.2: invalid total length 12");
}

#[test]
fn renders_missing_bytes() {
    let p = packet(0x45, 30, 6, &[1, 2, 3]);
    assert_eq!(
        DumpPayload(&p).to_string(),
        "IP 10.0.0.1 > 10.0.0.2: truncated-ip - 7 bytes missing"
    );
}

#[test]
fn renders_other_protocols() {
    let p = packet(0x45, 24, 1, &[8, 0, 0, 0, 0xaa]);
    assert_eq!(DumpPayload(&p).to_string(), "IP 10.0.0.1 > 10.0.0.2: ip-proto-1, length 4");
}

#[test]
fn renders_truncated_tcp_segments() {
    let p = packet(0x45, 30, 6, &[0; 10]);
    assert_eq!(DumpPayload(&p).to_string(), "IP 10.0.0.1 > 10.0.0.2: TCP, truncated, length 10");
    // data offset claims 24 bytes, only 20 present
    let p = tcp_packet(6, 0x10, &[], &[]);
    assert_eq!(DumpPayload(&p).to_string(), "IP 10.0.0.1 > 10.0.0.2: TCP, truncated, length 20");
}

#[test]
fn renders_tcp_sequence_wraparound_and_urgent() {
    let p = tcp_packet(5, 0x20 | 0x01, &[], &[1, 2]);
    assert_eq!(
        DumpPayload(&p).to_string(),
        "IP 10.0.0.1.80 > 10.0.0.2.8080: Flags [FU], seq 4294967295:1, win 256, urg 9, length 2"
    );
}

#[test]
fn renders_tcp_without_flags() {
    let p = tcp_packet(5, 0x00, &[], &[]);
    assert_eq!(
        DumpPayload(&p).to_string(),
        "IP 10.0.0.1.80 > 10.0.0.2.8080: Flags [none], win 256, length 0"
    );
}

#[test]
fn renders_truncated_udp_datagrams() {
    let p = packet(0x45, 24, 17, &[0, 53, 0, 53]);
    assert_eq!(DumpPayload(&p).to_string(), "IP 10.0.0.1 > 10.0.0.2: UDP, truncated, length 4");
}

#[test]
fn renders_udp_length_below_header_as_zero() {
    let p = packet(0x45, 28, 17, &[0, 53, 0, 54, 0, 3, 0, 0]);
    assert_eq!(DumpPayload(&p).to_string(), "IP 10.0.0.1.53 > 10.0.0.2.54: UDP, length 0");
}

#[test]
fn renders_all_tcp_flags() {
    assert_eq!(TcpFlags(0xff).to_string(), "FSRP.UEW");
    assert_eq!(TcpFlags(0x00).to_string(), "none");
    assert_eq!(TcpFlags(0x12).to_string(), "S.");
}

#[test]
fn renders_tcp_option_lists() {
    assert_eq!(TcpOptions(&[1, 1, 3, 3, 7, 0, 2]).to_string(), "nop,nop,wscale 7,eol");
    assert_eq!(TcpOptions(&[2]).to_string(), "unknown-2 malformed");
    assert_eq!(TcpOptions(&[1, 9, 1]).to_string(), "nop,unknown-9 malformed");
    assert_eq!(TcpOptions(&[30, 3, 0]).to_string(), "unknown-30 3");
    assert_eq!(TcpOptions(&[2, 3, 5]).to_string(), "unknown-2 3");
    assert_eq!(
        TcpOptions(&[5, 18, 0, 0, 0, 1, 0, 0, 0, 2, 0, 0, 0, 3, 0, 0, 0, 4]).to_string(),
        "sack 1:2 3:4"
    );
    assert_eq!(TcpOptions(&[]).to_string(), "");
}

#[test]
fn options_end_at_the_end_of_list() {
    assert_eq!(TcpOptions(&[0, 2, 4, 5, 180]).to_string(), "eol");
    assert_eq!(TcpOptions(&[1, 0, 1, 1]).to_string(), "nop,eol");
}

#[test]
fn options_show_at_most_one_entry_per_byte() {
    let bytes = [1u8, 1, 1, 1, 4, 2, 1];
    let text = TcpOptions(&bytes).to_string();
    assert_eq!(text, "nop,nop,nop,nop,sackOK,nop");
    assert!(text.matches(',').count() + 1 <= bytes.len());
}

#[test]
fn bytes_after_the_end_of_list_change_nothing() {
    let opts = [1u8, 2, 4, 5, 180, 0];
    let text = TcpOptions(&opts).to_string();
    assert_eq!(text, "nop,mss 1460,eol");
    let mut longer = opts.to_vec();
    longer.extend_from_slice(&[3, 3, 7, 1]);
    assert_eq!(TcpOptions(&longer).to_string(), text);
}

#[test]
fn options_are_joined_by_single_commas() {
    assert_eq!(TcpOptions(&[]).to_string(), "");
    for opts in [&[1u8, 1, 3, 3, 7, 0][..], &[2], &[1, 9, 1], &[4, 2, 1, 1]] {
        let text = TcpOptions(opts).to_string();
        assert!(!text.starts_with(','));
        assert!(!text.ends_with(','));
        assert!(!text.contains(",,"));
    }
}
