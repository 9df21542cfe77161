use glycerine::error::{Error, IoErrorKind, IoFailure};
use glycerine::worker::{
    advance_transfer, ipv4_total_len, nfq_receive_failure_action, nfq_to_vsock_recovery,
    sink_error, sink_for_protocol, vsock_to_ipv4_recovery, zero_progress_failure, Ipv4Sink,
    NfqToVsockRecovery, ReceiveFailureAction, VsockToIpv4Recovery, ENOBUFS,
};

fn header(version_ihl: u8, total_len: u16, protocol: u8) -> [u8; 20] {
    let mut h = [0u8; 20];
    h[0] = version_ihl;
    h[2] = (total_len >> 8) as u8;
    h[3] = (total_len & 0xff) as u8;
    h[9] = protocol;
    h
}

fn failure(code: Option<i32>) -> IoFailure {
    IoFailure { kind: IoErrorKind::Other, raw_os_error: code, message: String::from("boom") }
}

#[test]
fn reads_packet_length_and_protocol() {
    assert_eq!(ipv4_total_len(&header(0x45, 60, 6)).ok(), Some((60, 6)));
    assert_eq!(ipv4_total_len(&header(0x4f, 60, 17)).ok(), Some((60, 17)));
    assert_eq!(ipv4_total_len(&header(0x45, 65535, 1)).ok(), Some((65535, 1)));
}

#[test]
fn refuses_implausible_headers() {
    for h in [header(0x65, 60, 6), header(0x44, 60, 6), header(0x46, 20, 6)] {
        match ipv4_total_len(&h) {
            Err(Error::GlycerineInvalidIpv4Packet) => {},
            _ => panic!("accepted an implausible header"),
        }
    }
    match ipv4_total_len(&header(0x45, 19, 6)) {
        Err(e) => assert_eq!(e.message(), "glycerine: invalid ipv4 packet"),
        Ok(_) => panic!("accepted a packet shorter than its header"),
    }
}

#[test]
fn dispatches_by_protocol() {
    assert_eq!(sink_for_protocol(6), Some(Ipv4Sink::Tcp));
    assert_eq!(sink_for_protocol(17), Some(Ipv4Sink::Udp));
    assert_eq!(sink_for_protocol(1), None);
    assert!(matches!(sink_error(Ipv4Sink::Tcp, failure(None)), Error::IoIpv4Tcp(_)));
    assert!(matches!(sink_error(Ipv4Sink::Udp, failure(None)), Error::IoIpv4Udp(_)));
}

#[test]
fn tracks_partial_sends() {
    assert_eq!(advance_transfer(0, 10, 4), Some(4));
    assert_eq!(advance_transfer(4, 10, 6), Some(10));
    assert_eq!(advance_transfer(4, 10, 0), None);
    let f = zero_progress_failure("sent zero bytes");
    assert_eq!(f.kind, IoErrorKind::WriteZero);
    assert_eq!(f.raw_os_error, None);
    assert_eq!(f.message, "sent zero bytes");
}

#[test]
fn chooses_what_to_rebuild() {
    assert_eq!(vsock_to_ipv4_recovery(&Ok(())), VsockToIpv4Recovery::Stop);
    assert_eq!(
        vsock_to_ipv4_recovery(&Err(Error::IoVsock(failure(None)))),
        VsockToIpv4Recovery::RecreateVsock
    );
    assert_eq!(
        vsock_to_ipv4_recovery(&Err(Error::IoIpv4Tcp(failure(None)))),
        VsockToIpv4Recovery::RecreateTcpSink
    );
    assert_eq!(
        vsock_to_ipv4_recovery(&Err(Error::IoIpv4Udp(failure(None)))),
        VsockToIpv4Recovery::RecreateUdpSink
    );
    assert_eq!(vsock_to_ipv4_recovery(&Err(Error::GlycerineShutdown)), VsockToIpv4Recovery::Stop);
    assert_eq!(
        nfq_to_vsock_recovery(&Err(Error::IoNfq(failure(None)))),
        NfqToVsockRecovery::RecreateQueue
    );
    assert_eq!(
        nfq_to_vsock_recovery(&Err(Error::IoVsock(failure(None)))),
        NfqToVsockRecovery::RecreateVsock
    );
    assert_eq!(nfq_to_vsock_recovery(&Ok(())), NfqToVsockRecovery::Stop);
}

#[test]
fn tolerates_queue_overflow_only() {
    assert_eq!(ENOBUFS, libc::ENOBUFS);
    assert_eq!(nfq_receive_failure_action(&failure(Some(ENOBUFS))), ReceiveFailureAction::Continue);
    assert_eq!(nfq_receive_failure_action(&failure(Some(4))), ReceiveFailureAction::Fail);
    assert_eq!(nfq_receive_failure_action(&failure(None)), ReceiveFailureAction::Fail);
}
