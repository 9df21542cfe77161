//! The two packet pumps as state machines: from the state a pump is in and
//! the outcome of the I/O it last asked for, the state it moves to and the
//! I/O it asks for next. The caller performs that I/O and reports back.

use vstd::prelude::*;
use crate::error::{Error, IoErrorKind, IoFailure};
use crate::packet::MAX_PACKET_SIZE;
use crate::worker::{
    advance_transfer, nfq_receive_failure_action, sink_error, sink_for_protocol,
    spec_ipv4_total_len, zero_progress_failure, ipv4_total_len, Ipv4Sink, ReceiveFailureAction,
    ENOBUFS,
};

verus! {

/// A failure recorded because a send made no progress.
pub open spec fn is_zero_progress(f: IoFailure) -> bool {
    f.kind == IoErrorKind::WriteZero && f.raw_os_error is None && f.message@ == "sent zero bytes"@
}

/// The error for a failed send through the raw socket `sink`.
pub open spec fn sink_failure(sink: Ipv4Sink, f: IoFailure) -> Error {
    match sink {
        Ipv4Sink::Tcp => Error::IoIpv4Tcp(f),
        Ipv4Sink::Udp => Error::IoIpv4Udp(f),
    }
}

/// The raw socket for packets of IP protocol `p`, if they are forwarded.
pub open spec fn sink_of(p: u8) -> Option<Ipv4Sink> {
    if p == 6 {
        Some(Ipv4Sink::Tcp)
    } else if p == 17 {
        Some(Ipv4Sink::Udp)
    } else {
        None
    }
}

// ------------------------------------------------------------------------
// vsock to IPv4

/// Where the vsock-to-IPv4 pump stands.
#[derive(Debug)]
pub enum VsockToIpv4State {
    /// Waiting for the fixed header of the next packet.
    AwaitHeader,
    /// The first 20 bytes of a packet of `len` bytes were read; waiting for
    /// the rest. `forward` is where the packet goes, if its protocol is forwarded.
    AwaitBody { packet: Vec<u8>, len: usize, forward: Option<Ipv4Sink> },
    /// Sending `packet` through `sink`; its first `sent` bytes are out.
    Sending { packet: Vec<u8>, sink: Ipv4Sink, sent: usize },
    /// The pump has stopped.
    Stopped,
}

/// The outcome of the I/O the vsock-to-IPv4 pump asked for.
#[derive(Debug)]
pub enum VsockToIpv4Event {
    /// Shutdown was requested before the next packet was read.
    Cancelled,
    /// The fixed header of a packet was read.
    HeaderRead([u8; 20]),
    /// The rest of the packet was read.
    BodyRead(Vec<u8>),
    /// A send took this many bytes.
    Wrote(usize),
    /// The read or send failed.
    Failed(IoFailure),
}

/// The I/O the vsock-to-IPv4 pump asks for next.
#[derive(Debug)]
pub enum VsockToIpv4Action {
    /// Unless shutdown was requested, read the 20-byte header of a packet
    /// from the vsock connection.
    ReadHeader,
    /// Read exactly this many more bytes of the packet.
    ReadBody(usize),
    /// Send the packet of the `Sending` state, from this offset to its end,
    /// through the given raw socket.
    Send(Ipv4Sink, usize),
    /// Stop the pump with this result.
    Stop(Result<(), Error>),
}

impl VsockToIpv4State {
    /// The invariant of the states: a packet being read or sent has a
    /// plausible length, and a packet being sent is not yet all out.
    pub open spec fn wf(&self) -> bool {
        match self {
            VsockToIpv4State::AwaitBody { packet, len, .. } => packet@.len() == 20 && 20 <= *len
                <= MAX_PACKET_SIZE,
            VsockToIpv4State::Sending { packet, sent, .. } => *sent < packet@.len()
                <= MAX_PACKET_SIZE,
            _ => true,
        }
    }

    /// Whether `e` is an outcome of the I/O that this state asked for: the
    /// header read or shutdown in `AwaitHeader`, exactly the missing bytes
    /// in `AwaitBody`, at most the unsent bytes in `Sending`, or a failure.
    pub open spec fn accepts(&self, e: VsockToIpv4Event) -> bool {
        match self {
            VsockToIpv4State::AwaitHeader => !(e is BodyRead) && !(e is Wrote),
            VsockToIpv4State::AwaitBody { len, .. } => e is Failed || (e matches VsockToIpv4Event::BodyRead(b)
                && b@.len() == *len - 20),
            VsockToIpv4State::Sending { packet, sent, .. } => e is Failed || (e matches VsockToIpv4Event::Wrote(n)
                && n <= packet@.len() - *sent),
            VsockToIpv4State::Stopped => false,
        }
    }
}

/// One step of the vsock-to-IPv4 pump. A header that is not a plausible
/// IPv4 header stops the pump; the packet it starts is read whole, and
/// then sent, header and body exactly as read, through the raw socket for
/// its protocol, or skipped when its protocol is not forwarded. A send that
/// takes no bytes stops the pump; failed reads are `IoVsock` errors and
/// failed sends the error of their raw socket.
pub fn vsock_to_ipv4_step(state: VsockToIpv4State, event: VsockToIpv4Event) -> (r: (
    VsockToIpv4State,
    VsockToIpv4Action,
))
    requires
        state.wf(),
        state.accepts(event),
    ensures
        r.0.wf(),
        match state {
            VsockToIpv4State::AwaitHeader => match event {
                VsockToIpv4Event::Cancelled => {
                    &&& r.0 is Stopped
                    &&& r.1 matches VsockToIpv4Action::Stop(Ok(()))
                },
                VsockToIpv4Event::HeaderRead(h) => match spec_ipv4_total_len(h@) {
                    None => {
                        &&& r.0 is Stopped
                        &&& r.1 matches VsockToIpv4Action::Stop(Err(e))
                        &&& e == Error::GlycerineInvalidIpv4Packet
                    },
                    Some((len, p)) => {
                        &&& r.0 matches VsockToIpv4State::AwaitBody { packet, len: l, forward }
                        &&& packet@ == h@
                        &&& l == len
                        &&& forward == sink_of(p)
                        &&& r.1 matches VsockToIpv4Action::ReadBody(n)
                        &&& n == len - 20
                    },
                },
                VsockToIpv4Event::Failed(f) => {
                    &&& r.0 is Stopped
                    &&& r.1 matches VsockToIpv4Action::Stop(Err(e))
                    &&& e == Error::IoVsock(f)
                },
                _ => true,
            },
            VsockToIpv4State::AwaitBody { packet, forward, .. } => match event {
                VsockToIpv4Event::BodyRead(b) => match forward {
                    None => r.0 is AwaitHeader && r.1 is ReadHeader,
                    Some(k) => {
                        &&& r.0 matches VsockToIpv4State::Sending { packet: p2, sink: k2, sent }
                        &&& p2@ == packet@ + b@
                        &&& k2 == k
                        &&& sent == 0
                        &&& r.1 matches VsockToIpv4Action::Send(k3, from)
                        &&& k3 == k
                        &&& from == 0
                    },
                },
                VsockToIpv4Event::Failed(f) => {
                    &&& r.0 is Stopped
                    &&& r.1 matches VsockToIpv4Action::Stop(Err(e))
                    &&& e == Error::IoVsock(f)
                },
                _ => true,
            },
            VsockToIpv4State::Sending { packet, sink, sent } => match event {
                VsockToIpv4Event::Wrote(n) => if n == 0 {
                    &&& r.0 is Stopped
                    &&& r.1 matches VsockToIpv4Action::Stop(Err(e))
                    &&& exists|f: IoFailure| e == sink_failure(sink, f) && is_zero_progress(f)
                } else if sent + n == packet@.len() {
                    r.0 is AwaitHeader && r.1 is ReadHeader
                } else {
                    &&& r.0 matches VsockToIpv4State::Sending { packet: p2, sink: k2, sent: s2 }
                    &&& p2@ == packet@
                    &&& k2 == sink
                    &&& s2 == sent + n
                    &&& r.1 matches VsockToIpv4Action::Send(k3, from)
                    &&& k3 == sink
                    &&& from == sent + n
                },
                VsockToIpv4Event::Failed(f) => {
                    &&& r.0 is Stopped
                    &&& r.1 matches VsockToIpv4Action::Stop(Err(e))
                    &&& e == sink_failure(sink, f)
                },
                _ => true,
            },
            VsockToIpv4State::Stopped => true,
        },
{
    match state {
        VsockToIpv4State::AwaitHeader => match event {
            VsockToIpv4Event::HeaderRead(h) => match ipv4_total_len(&h) {
                Ok((len, protocol)) => {
                    let mut packet: Vec<u8> = Vec::new();
                    let mut i: usize = 0;
                    while i < 20
                        invariant
                            i <= 20,
                            packet@ == h@.subrange(0, i as int),
                        decreases 20 - i,
                    {
                        packet.push(h[i]);
                        i += 1;
                    }
                    assert(h@.subrange(0, 20) =~= h@);
                    let sink = sink_for_protocol(protocol);
                    (VsockToIpv4State::AwaitBody { packet, len, forward: sink }, VsockToIpv4Action::ReadBody(len - 20))
                },
                Err(e) => (VsockToIpv4State::Stopped, VsockToIpv4Action::Stop(Err(e))),
            },
            VsockToIpv4Event::Failed(f) => (
                VsockToIpv4State::Stopped,
                VsockToIpv4Action::Stop(Err(Error::IoVsock(f))),
            ),
            _ => (VsockToIpv4State::Stopped, VsockToIpv4Action::Stop(Ok(()))),
        },
        VsockToIpv4State::AwaitBody { packet, len, forward } => match event {
            VsockToIpv4Event::BodyRead(b) => match forward {
                None => (VsockToIpv4State::AwaitHeader, VsockToIpv4Action::ReadHeader),
                Some(k) => {
                    let mut packet = packet;
                    let ghost head = packet@;
                    let n = b.len();
                    let mut i: usize = 0;
                    while i < n
                        invariant
                            i <= n,
                            n == b@.len(),
                            packet@ == head + b@.subrange(0, i as int),
                        decreases n - i,
                    {
                        packet.push(b[i]);
                        i += 1;
                        assert(b@.subrange(0, i as int) =~= b@.subrange(0, i - 1) + seq![b@[i - 1]]);
                    }
                    assert(b@.subrange(0, n as int) =~= b@);
                    (VsockToIpv4State::Sending { packet, sink: k, sent: 0 }, VsockToIpv4Action::Send(k, 0))
                },
            },
            VsockToIpv4Event::Failed(f) => (
                VsockToIpv4State::Stopped,
                VsockToIpv4Action::Stop(Err(Error::IoVsock(f))),
            ),
            _ => (VsockToIpv4State::Stopped, VsockToIpv4Action::Stop(Ok(()))),
        },
        VsockToIpv4State::Sending { packet, sink, sent } => match event {
            VsockToIpv4Event::Wrote(n) => match advance_transfer(sent, packet.len(), n) {
                None => {
                    let f = zero_progress_failure("sent zero bytes");
                    proof {
                        reveal_strlit("sent zero bytes");
                    }
                    let ghost failure = f;
                    let e = sink_error(sink, f);
                    assert(e == sink_failure(sink, failure) && is_zero_progress(failure));
                    (VsockToIpv4State::Stopped, VsockToIpv4Action::Stop(Err(e)))
                },
                Some(next) => if next == packet.len() {
                    (VsockToIpv4State::AwaitHeader, VsockToIpv4Action::ReadHeader)
                } else {
                    (VsockToIpv4State::Sending { packet, sink, sent: next }, VsockToIpv4Action::Send(sink, next))
                },
            },
            VsockToIpv4Event::Failed(f) => (
                VsockToIpv4State::Stopped,
                VsockToIpv4Action::Stop(Err(sink_error(sink, f))),
            ),
            _ => (VsockToIpv4State::Stopped, VsockToIpv4Action::Stop(Ok(()))),
        },
        VsockToIpv4State::Stopped => (VsockToIpv4State::Stopped, VsockToIpv4Action::Stop(Ok(()))),
    }
}

// ------------------------------------------------------------------------
// netfilter queue to vsock

/// Where the netfilter-queue-to-vsock pump stands.
#[derive(Clone, Copy, Debug, PartialEq, Eq, Structural)]
pub enum NfqToVsockState {
    /// Waiting for the next message of the queue.
    AwaitMessage,
    /// Sending the payload of `len` bytes of the message received; its
    /// first `sent` bytes are out.
    Sending { len: usize, sent: usize },
    /// The payload is out; waiting for the verdict on the message to be given.
    AwaitVerdict,
    /// The pump has stopped.
    Stopped,
}

/// The outcome of the I/O the netfilter-queue-to-vsock pump asked for.
#[derive(Debug)]
pub enum NfqToVsockEvent {
    /// Shutdown was requested before the next message was received.
    Cancelled,
    /// A message with a payload of this many bytes was received.
    Received(usize),
    /// A send took this many bytes.
    Wrote(usize),
    /// The verdict on the message was given.
    VerdictGiven,
    /// The receive, send or verdict failed.
    Failed(IoFailure),
}

/// The verdict a netfilter queue message can be given.
#[derive(Clone, Copy, Debug, PartialEq, Eq, Structural)]
pub enum QueueVerdict {
    /// Let the packet through.
    Accept,
    /// Drop the packet.
    Drop,
}

/// The I/O the netfilter-queue-to-vsock pump asks for next.
#[derive(Debug)]
pub enum NfqToVsockAction {
    /// Unless shutdown was requested, receive the next message of the queue.
    Receive,
    /// Send the message's payload, from this offset to its end, to the
    /// vsock connection.
    Send(usize),
    /// Give the message this verdict.
    GiveVerdict(QueueVerdict),
    /// Stop the pump with this result.
    Stop(Result<(), Error>),
}

impl NfqToVsockState {
    /// The invariant of the states: a payload being sent is not yet all out.
    pub open spec fn wf(self) -> bool {
        self matches NfqToVsockState::Sending { len, sent } ==> sent < len
    }

    /// Whether `e` is an outcome of the I/O that this state asked for.
    pub open spec fn accepts(self, e: NfqToVsockEvent) -> bool {
        match self {
            NfqToVsockState::AwaitMessage => e is Cancelled || e is Received || e is Failed,
            NfqToVsockState::Sending { len, sent } => e is Failed || (e matches NfqToVsockEvent::Wrote(n)
                && n <= len - sent),
            NfqToVsockState::AwaitVerdict => e is VerdictGiven || e is Failed,
            NfqToVsockState::Stopped => false,
        }
    }
}

/// One step of the netfilter-queue-to-vsock pump. A failed receive is
/// passed over when the kernel only reported dropped messages, and stops
/// the pump with an `IoNfq` error otherwise. The payload of each message
/// is sent whole, in order, to the vsock connection; only then is the
/// verdict given, once, and it is to drop the packet, after which the next
/// message is received. A send that takes no bytes stops the pump; failed
/// sends are `IoVsock` errors and a failed verdict an `IoNfq` error.
pub fn nfq_to_vsock_step(state: NfqToVsockState, event: NfqToVsockEvent) -> (r: (
    NfqToVsockState,
    NfqToVsockAction,
))
    requires
        state.wf(),
        state.accepts(event),
    ensures
        r.0.wf(),
        r.1 is GiveVerdict <==> r.0 is AwaitVerdict,
        r.1 matches NfqToVsockAction::GiveVerdict(v) ==> v == QueueVerdict::Drop,
        r.1 is Receive <==> r.0 is AwaitMessage,
        r.1 is Stop <==> r.0 is Stopped,
        r.1 matches NfqToVsockAction::Send(from) ==> (r.0 matches NfqToVsockState::Sending { sent, .. }
            && from == sent),
        match state {
            NfqToVsockState::AwaitMessage => match event {
                NfqToVsockEvent::Cancelled => r.1 matches NfqToVsockAction::Stop(Ok(())),
                NfqToVsockEvent::Received(len) => if len == 0 {
                    r.1 is GiveVerdict
                } else {
                    r.0 == NfqToVsockState::Sending { len, sent: 0 }
                },
                NfqToVsockEvent::Failed(f) => if f.raw_os_error == Some(ENOBUFS) {
                    r.1 is Receive
                } else {
                    r.1 matches NfqToVsockAction::Stop(Err(e)) && e == Error::IoNfq(f)
                },
                _ => true,
            },
            NfqToVsockState::Sending { len, sent } => match event {
                NfqToVsockEvent::Wrote(n) => if n == 0 {
                    r.1 matches NfqToVsockAction::Stop(Err(e)) && e matches Error::IoVsock(f)
                        && is_zero_progress(f)
                } else if sent + n == len {
                    r.1 is GiveVerdict
                } else {
                    r.0 == NfqToVsockState::Sending { len, sent: (sent + n) as usize }
                },
                NfqToVsockEvent::Failed(f) => r.1 matches NfqToVsockAction::Stop(Err(e)) && e
                    == Error::IoVsock(f),
                _ => true,
            },
            NfqToVsockState::AwaitVerdict => match event {
                NfqToVsockEvent::VerdictGiven => r.1 is Receive,
                NfqToVsockEvent::Failed(f) => r.1 matches NfqToVsockAction::Stop(Err(e)) && e
                    == Error::IoNfq(f),
                _ => true,
            },
            NfqToVsockState::Stopped => true,
        },
{
    match state {
        NfqToVsockState::AwaitMessage => match event {
            NfqToVsockEvent::Received(len) => if len == 0 {
                (NfqToVsockState::AwaitVerdict, NfqToVsockAction::GiveVerdict(QueueVerdict::Drop))
            } else {
                (NfqToVsockState::Sending { len, sent: 0 }, NfqToVsockAction::Send(0))
            },
            NfqToVsockEvent::Failed(f) => match nfq_receive_failure_action(&f) {
                ReceiveFailureAction::Continue => (NfqToVsockState::AwaitMessage, NfqToVsockAction::Receive),
                ReceiveFailureAction::Fail => (
                    NfqToVsockState::Stopped,
                    NfqToVsockAction::Stop(Err(Error::IoNfq(f))),
                ),
            },
            _ => (NfqToVsockState::Stopped, NfqToVsockAction::Stop(Ok(()))),
        },
        NfqToVsockState::Sending { len, sent } => match event {
            NfqToVsockEvent::Wrote(n) => match advance_transfer(sent, len, n) {
                None => {
                    let f = zero_progress_failure("sent zero bytes");
                    proof {
                        reveal_strlit("sent zero bytes");
                    }
                    (NfqToVsockState::Stopped, NfqToVsockAction::Stop(Err(Error::IoVsock(f))))
                },
                Some(next) => if next == len {
                    (NfqToVsockState::AwaitVerdict, NfqToVsockAction::GiveVerdict(QueueVerdict::Drop))
                } else {
                    (NfqToVsockState::Sending { len, sent: next }, NfqToVsockAction::Send(next))
                },
            },
            NfqToVsockEvent::Failed(f) => (
                NfqToVsockState::Stopped,
                NfqToVsockAction::Stop(Err(Error::IoVsock(f))),
            ),
            _ => (NfqToVsockState::Stopped, NfqToVsockAction::Stop(Ok(()))),
        },
        NfqToVsockState::AwaitVerdict => match event {
            NfqToVsockEvent::VerdictGiven => (NfqToVsockState::AwaitMessage, NfqToVsockAction::Receive),
            NfqToVsockEvent::Failed(f) => (
                NfqToVsockState::Stopped,
                NfqToVsockAction::Stop(Err(Error::IoNfq(f))),
            ),
            _ => (NfqToVsockState::Stopped, NfqToVsockAction::Stop(Ok(()))),
        },
        NfqToVsockState::Stopped => (NfqToVsockState::Stopped, NfqToVsockAction::Stop(Ok(()))),
    }
}

} // verus!
