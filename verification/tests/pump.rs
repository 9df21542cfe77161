use glycerine::error::{Error, IoErrorKind, IoFailure};
use glycerine::pump::{
    nfq_to_vsock_step, vsock_to_ipv4_step, NfqToVsockAction, NfqToVsockEvent, NfqToVsockState, QueueVerdict,
    VsockToIpv4Action, VsockToIpv4Event, VsockToIpv4State,
};
use glycerine::worker::Ipv4Sink;

fn header(first: u8, total: u16, protocol: u8) -> [u8; 20] {
    let mut h = [0u8; 20];
    h[0] = first;
    h[2] = (total >> 8) as u8;
    h[3] = (total & 0xff) as u8;
    h[9] = protocol;
    h
}

fn failure(code: Option<i32>) -> IoFailure {
    IoFailure { kind: IoErrorKind::Other, raw_os_error: code, message: String::from("boom") }
}

#[test]
fn forwards_a_packet_as_read() {
    let h = header(0x45, 24, 6);
    let (s, a) = vsock_to_ipv4_step(VsockToIpv4State::AwaitHeader, VsockToIpv4Event::HeaderRead(h));
    assert!(matches!(a, VsockToIpv4Action::ReadBody(4)));
    let (s, a) = vsock_to_ipv4_step(s, VsockToIpv4Event::BodyRead(vec![1, 2, 3, 4]));
    assert!(matches!(a, VsockToIpv4Action::Send(Ipv4Sink::Tcp, 0)));
    let mut expected = h.to_vec();
    expected.extend_from_slice(&[1, 2, 3, 4]);
    match &s {
        VsockToIpv4State::Sending { packet, sink, sent } => {
            assert_eq!(packet, &expected);
            assert_eq!(*sink, Ipv4Sink::Tcp);
            assert_eq!(*sent, 0);
        },
        _ => panic!("not sending"),
    }
    let (s, a) = vsock_to_ipv4_step(s, VsockToIpv4Event::Wrote(10));
    assert!(matches!(a, VsockToIpv4Action::Send(Ipv4Sink::Tcp, 10)));
    let (s, a) = vsock_to_ipv4_step(s, VsockToIpv4Event::Wrote(14));
    assert!(matches!(s, VsockToIpv4State::AwaitHeader));
    assert!(matches!(a, VsockToIpv4Action::ReadHeader));
}

#[test]
fn skips_packets_of_other_protocols() {
    let (s, a) = vsock_to_ipv4_step(VsockToIpv4State::AwaitHeader, VsockToIpv4Event::HeaderRead(header(0x45, 21, 1)));
    assert!(matches!(a, VsockToIpv4Action::ReadBody(1)));
    let (s, a) = vsock_to_ipv4_step(s, VsockToIpv4Event::BodyRead(vec![9]));
    assert!(matches!(s, VsockToIpv4State::AwaitHeader));
    assert!(matches!(a, VsockToIpv4Action::ReadHeader));
}

#[test]
fn stops_the_vsock_pump() {
    let (_, a) = vsock_to_ipv4_step(VsockToIpv4State::AwaitHeader, VsockToIpv4Event::Cancelled);
    assert!(matches!(a, VsockToIpv4Action::Stop(Ok(()))));
    let (_, a) = vsock_to_ipv4_step(VsockToIpv4State::AwaitHeader, VsockToIpv4Event::HeaderRead(header(0x65, 60, 6)));
    assert!(matches!(a, VsockToIpv4Action::Stop(Err(Error::GlycerineInvalidIpv4Packet))));
    let (_, a) = vsock_to_ipv4_step(VsockToIpv4State::AwaitHeader, VsockToIpv4Event::Failed(failure(Some(104))));
    assert!(matches!(a, VsockToIpv4Action::Stop(Err(Error::IoVsock(_)))));
    let sending = VsockToIpv4State::Sending { packet: vec![0u8; 20], sink: Ipv4Sink::Udp, sent: 4 };
    match vsock_to_ipv4_step(sending, VsockToIpv4Event::Wrote(0)).1 {
        VsockToIpv4Action::Stop(Err(Error::IoIpv4Udp(f))) => {
            assert_eq!(f.kind, IoErrorKind::WriteZero);
            assert_eq!(f.message, "sent zero bytes");
        },
        a => panic!("unexpected {a:?}"),
    }
    let sending = VsockToIpv4State::Sending { packet: vec![0u8; 20], sink: Ipv4Sink::Tcp, sent: 4 };
    let (_, a) = vsock_to_ipv4_step(sending, VsockToIpv4Event::Failed(failure(Some(1))));
    assert!(matches!(a, VsockToIpv4Action::Stop(Err(Error::IoIpv4Tcp(_)))));
}

#[test]
fn gives_the_verdict_after_the_whole_payload() {
    let (s, a) = nfq_to_vsock_step(NfqToVsockState::AwaitMessage, NfqToVsockEvent::Received(5));
    assert!(matches!(a, NfqToVsockAction::Send(0)));
    let (s, a) = nfq_to_vsock_step(s, NfqToVsockEvent::Wrote(2));
    assert!(matches!(a, NfqToVsockAction::Send(2)));
    let (s, a) = nfq_to_vsock_step(s, NfqToVsockEvent::Wrote(3));
    assert_eq!(s, NfqToVsockState::AwaitVerdict);
    assert!(matches!(a, NfqToVsockAction::GiveVerdict(QueueVerdict::Drop)));
    let (s, a) = nfq_to_vsock_step(s, NfqToVsockEvent::VerdictGiven);
    assert_eq!(s, NfqToVsockState::AwaitMessage);
    assert!(matches!(a, NfqToVsockAction::Receive));
    let (_, a) = nfq_to_vsock_step(NfqToVsockState::AwaitMessage, NfqToVsockEvent::Received(0));
    assert!(matches!(a, NfqToVsockAction::GiveVerdict(QueueVerdict::Drop)));
}

#[test]
fn handles_queue_failures() {
    let (s, a) = nfq_to_vsock_step(NfqToVsockState::AwaitMessage, NfqToVsockEvent::Failed(failure(Some(105))));
    assert_eq!(s, NfqToVsockState::AwaitMessage);
    assert!(matches!(a, NfqToVsockAction::Receive));
    let (_, a) = nfq_to_vsock_step(NfqToVsockState::AwaitMessage, NfqToVsockEvent::Failed(failure(Some(9))));
    assert!(matches!(a, NfqToVsockAction::Stop(Err(Error::IoNfq(_)))));
    let (_, a) = nfq_to_vsock_step(NfqToVsockState::Sending { len: 5, sent: 1 }, NfqToVsockEvent::Wrote(0));
    assert!(matches!(a, NfqToVsockAction::Stop(Err(Error::IoVsock(IoFailure { kind: IoErrorKind::WriteZero, .. })))));
    let (_, a) = nfq_to_vsock_step(NfqToVsockState::AwaitVerdict, NfqToVsockEvent::Failed(failure(Some(9))));
    assert!(matches!(a, NfqToVsockAction::Stop(Err(Error::IoNfq(_)))));
    let (_, a) = nfq_to_vsock_step(NfqToVsockState::AwaitMessage, NfqToVsockEvent::Cancelled);
    assert!(matches!(a, NfqToVsockAction::Stop(Ok(()))));
}
