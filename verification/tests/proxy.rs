use glycerine::error::{Error, IoErrorKind, IoFailure};
use glycerine::proxy::{log_errors, startup_exit_code};

#[test]
fn logs_each_failed_task() {
    let res = vec![
        Ok(Ok(())),
        Err(String::from("task 3 panicked")),
        Ok(Err(Error::IoVsock(IoFailure { kind: IoErrorKind::ConnectionReset, raw_os_error: Some(104), message: String::from("Connection reset by peer (os error 104)") }))),
        Ok(Ok(())),
    ];
    assert_eq!(
        log_errors(&res),
        vec![
            String::from("task 3 panicked"),
            String::from("io-vsock: Connection reset by peer (os error 104)"),
        ]
    );
    assert!(log_errors(&[]).is_empty());
}

#[test]
fn exits_cleanly_only_on_shutdown() {
    assert_eq!(startup_exit_code(&Error::GlycerineShutdown), 0);
    assert_eq!(startup_exit_code(&Error::GlycerineUnknownInterface), 1);
}

#[test]
fn renders_error_messages() {
    assert_eq!(Error::GlycerineShutdown.message(), "glycerine: shutdown");
    assert_eq!(Error::GlycerineUnexpectedCid.message(), "glycerine: unexpected peer cid");
    assert_eq!(Error::GlycerineUnknownInterface.message(), "glycerine: unknown interface");
    assert_eq!(Error::GlycerineInvalidIpv4Packet.message(), "glycerine: invalid ipv4 packet");
    assert_eq!(
        Error::GlycerineInvalidConfig(String::from("x")).message(),
        "glycerine: invalid config: x"
    );
    assert_eq!(Error::Json(String::from("EOF")).message(), "json: EOF");
    assert_eq!(Error::Rtnetlink(String::from("r")).message(), "netlink: r");
    assert_eq!(Error::UnsupportedProtocol(-3).message(), "unsupported-protocol: -3");
    assert_eq!(Error::UnsupportedProtocol(58).message(), "unsupported-protocol: IPPROTO_ICMPV6");
    let f = || IoFailure { kind: IoErrorKind::Other, raw_os_error: None, message: String::from("m") };
    assert_eq!(Error::IoIpv4Udp(f()).message(), "io-ipv4-udp: m");
    assert_eq!(Error::IoNetlink(f()).message(), "io-netlink: m");
    assert_eq!(Error::IoNfq(f()).message(), "io-nfq: m");
    assert_eq!(Error::IoNftnl(f()).message(), "io-nftnl: m");
}

#[test]
fn stops_after_setup_only_when_asked() {
    assert!(glycerine::proxy::after_setup(false).is_ok());
    assert!(matches!(glycerine::proxy::after_setup(true), Err(Error::GlycerineShutdown)));
}
