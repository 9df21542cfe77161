use glycerine::packet::DumpPayload;

#[test]
fn renders_tcp_packet() {
    let payload = [
        0x45, 0x00, 0x00, 0x2c, 0x12, 0x34, 0x40, 0x00, 0x40, 0x06, 0x00, 0x00, 0xc0, 0x00,
        0x02, 0x01, 0xc6, 0x33, 0x64, 0x02, 0x30, 0x39, 0x01, 0xbb, 0x01, 0x02, 0x03, 0x04,
        0x05, 0x06, 0x07, 0x08, 0x50, 0x18, 0x40, 0x00, 0x00, 0x00, 0x00, 0x00, b't', b'e',
        b's', b't',
    ];

    assert_eq!(
        DumpPayload(&payload).to_string(),
        "IP 192.0.2.1.12345 > 198.51.100.2.443: Flags [P.], seq 16909060:16909064, ack 84281096, win 16384, length 4",
    );
}

#[test]
fn renders_tcp_options() {
    let payload = [
        0x45, 0x00, 0x00, 0x38, 0x12, 0x34, 0x40, 0x00, 0x40, 0x06, 0x00, 0x00, 0xc0, 0x00,
        0x02, 0x01, 0xc6, 0x33, 0x64, 0x02, 0x30, 0x39, 0x01, 0xbb, 0x01, 0x02, 0x03, 0x04,
        0x00, 0x00, 0x00, 0x00, 0x90, 0x02, 0x40, 0x00, 0x00, 0x00, 0x00, 0x00, 0x02, 0x04,
        0x05, 0xb4, 0x04, 0x02, 0x08, 0x0a, 0x00, 0x00, 0x00, 0x2a, 0x00, 0x00, 0x00, 0x00,
    ];

    assert_eq!(
        DumpPayload(&payload).to_string(),
        "IP 192.0.2.1.12345 > 198.51.100.2.443: Flags [S], seq 16909060, win 16384, options [mss 1460,sackOK,TS val 42 ecr 0], length 0",
    );
}

#[test]
fn renders_udp_packet() {
    let payload = [
        0x45, 0x00, 0x00, 0x20, 0x12, 0x34, 0x40, 0x00, 0x40, 0x11, 0x00, 0x00, 0xc0, 0x00,
        0x02, 0x01, 0xc6, 0x33, 0x64, 0x02, 0x30, 0x39, 0x00, 0x35, 0x00, 0x0c, 0x00, 0x00,
        b't', b'e', b's', b't',
    ];

    assert_eq!(
        DumpPayload(&payload).to_string(),
        "IP 192.0.2.1.12345 > 198.51.100.2.53: UDP, length 4",
    );
}

#[test]
fn renders_truncated_packet() {
    assert_eq!(DumpPayload(&[0x45, 0x00]).to_string(), "IP truncated, length 2",);
}
