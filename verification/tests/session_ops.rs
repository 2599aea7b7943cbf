use wifi_link::acquisition::{IpBinding, IpMode};
use wifi_link::errors::SocketError;
use wifi_link::ipv4::{Ipv4Addr, Ipv4Cidr};
use wifi_link::session::{FlushOutcome, ReadStep, RxPoll, SocketSession};
use wifi_link::supervisor::{ConnectionSupervisor, SupervisorEvent};

fn remote() -> Ipv4Addr {
    Ipv4Addr { o0: 142, o1: 250, o2: 185, o3: 115 }
}

fn binding() -> IpBinding {
    IpBinding {
        mode: IpMode::Static,
        address: Some(Ipv4Cidr {
            addr: Ipv4Addr { o0: 192, o1: 168, o2: 4, o3: 1 },
            prefix_len: 24,
        }),
        gateway: Some(Ipv4Addr { o0: 192, o1: 168, o2: 4, o3: 1 }),
    }
}

fn ready_supervisor() -> ConnectionSupervisor {
    let mut sup = ConnectionSupervisor::new();
    sup.step(SupervisorEvent::Started);
    sup.step(SupervisorEvent::AssociationSucceeded);
    sup.step(SupervisorEvent::LinkUp);
    sup.step(SupervisorEvent::AddressAcquired(binding()));
    assert!(sup.is_ready());
    sup
}

#[test]
fn past_deadline_times_out_immediately() {
    let sup = ready_supervisor();
    let mut session = SocketSession::new();
    session.open(&sup, remote(), 80).unwrap();
    // deadline already behind the clock: timeout, even with data waiting
    let step = session.read_step(&sup, 2_000, 1_000, RxPoll::Data(32));
    assert_eq!(step, ReadStep::Fail(SocketError::Timeout));

    let mut at_deadline = SocketSession::new();
    at_deadline.open(&sup, remote(), 80).unwrap();
    let step = at_deadline.read_step(&sup, 1_000, 1_000, RxPoll::Empty);
    assert_eq!(step, ReadStep::Fail(SocketError::Timeout));
}

#[test]
fn read_decisions_before_deadline() {
    let sup = ready_supervisor();
    let mut session = SocketSession::new();
    session.open(&sup, remote(), 80).unwrap();
    assert_eq!(session.read_step(&sup, 0, 20_000, RxPoll::Empty), ReadStep::Wait);
    assert_eq!(session.read_step(&sup, 10, 20_000, RxPoll::Data(0)), ReadStep::Wait);
    assert_eq!(
        session.read_step(&sup, 10, 20_000, RxPoll::Data(512)),
        ReadStep::Deliver(512)
    );
    assert_eq!(session.read_step(&sup, 10, 20_000, RxPoll::Eof), ReadStep::EndOfStream);
    assert_eq!(
        session.read_step(&sup, 10, 20_000, RxPoll::Reset),
        ReadStep::Fail(SocketError::Closed)
    );
}

#[test]
fn open_outside_ready_fails_without_allocating() {
    let mut sup = ConnectionSupervisor::new();
    let mut session = SocketSession::new();
    // idle, associating, associated, address pending: never ready
    for event in [
        SupervisorEvent::Started,
        SupervisorEvent::AssociationSucceeded,
        SupervisorEvent::LinkUp,
    ] {
        assert_eq!(session.open(&sup, remote(), 80), Err(SocketError::NotReady));
        sup.step(event);
    }
    assert_eq!(session.open(&sup, remote(), 80), Err(SocketError::NotReady));
    sup.step(SupervisorEvent::AddressAcquired(binding()));
    assert!(sup.is_ready());
    assert_eq!(session.open(&sup, remote(), 80), Ok(()));
}

#[test]
fn one_endpoint_per_session() {
    let sup = ready_supervisor();
    let mut session = SocketSession::new();
    session.open(&sup, remote(), 80).unwrap();
    assert_eq!(session.open(&sup, remote(), 443), Err(SocketError::AlreadyOpen));
    session.close();
    assert_eq!(session.open(&sup, remote(), 443), Ok(()));
}

#[test]
fn writes_buffer_until_taken() {
    let sup = ready_supervisor();
    let mut session = SocketSession::new();
    session.open(&sup, remote(), 80).unwrap();
    session.write_all(&sup, b"GET / HTTP/1.0\r\n").unwrap();
    session.write_all(&sup, b"Host: www.mobile-j.de\r\n\r\n").unwrap();
    let pending = session.take_pending();
    assert_eq!(pending, b"GET / HTTP/1.0\r\nHost: www.mobile-j.de\r\n\r\n".to_vec());
    assert_eq!(session.take_pending(), Vec::<u8>::new());
    assert_eq!(session.on_flush_result(FlushOutcome::Accepted), Ok(()));
}

#[test]
fn peer_reset_surfaces_as_closed() {
    let sup = ready_supervisor();
    let mut session = SocketSession::new();
    session.open(&sup, remote(), 80).unwrap();
    session.write_all(&sup, b"partial").unwrap();
    assert_eq!(
        session.on_flush_result(FlushOutcome::PeerReset),
        Err(SocketError::Closed)
    );
    // the endpoint is gone: further writes refuse
    assert_eq!(session.write_all(&sup, b"more"), Err(SocketError::Closed));
}

#[test]
fn session_does_not_survive_a_reconnect() {
    let mut sup = ready_supervisor();
    let mut session = SocketSession::new();
    session.open(&sup, remote(), 80).unwrap();
    // the link drops and comes back: a new generation
    sup.step(SupervisorEvent::Disconnect(
        wifi_link::errors::DisconnectReason::RadioReported,
    ));
    assert_eq!(session.write_all(&sup, b"stale"), Err(SocketError::Closed));
    sup.step(SupervisorEvent::BackoffElapsed);
    sup.step(SupervisorEvent::AssociationSucceeded);
    sup.step(SupervisorEvent::LinkUp);
    sup.step(SupervisorEvent::AddressAcquired(binding()));
    assert!(sup.is_ready());
    // the old handle was closed by the failed write; reopening binds anew
    let mut reopened = SocketSession::new();
    reopened.open(&sup, remote(), 80).unwrap();
    assert_eq!(reopened.write_all(&sup, b"fresh"), Ok(()));
}

#[test]
fn close_always_succeeds() {
    let mut session = SocketSession::new();
    session.close();
    session.close();
    let sup = ready_supervisor();
    session.open(&sup, remote(), 80).unwrap();
    session.write_all(&sup, b"unsent").unwrap();
    session.close();
    assert_eq!(session.take_pending(), Vec::<u8>::new());
}
