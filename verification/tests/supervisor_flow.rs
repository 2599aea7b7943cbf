use wifi_link::acquisition::{IpBinding, IpMode};
use wifi_link::errors::{DisconnectReason, RadioError};
use wifi_link::ipv4::{Ipv4Addr, Ipv4Cidr};
use wifi_link::supervisor::{
    ConnectionState, ConnectionSupervisor, SupervisorAction, SupervisorEvent, BACKOFF_MS,
};

fn bound_binding() -> IpBinding {
    IpBinding {
        mode: IpMode::Dhcp,
        address: Some(Ipv4Cidr {
            addr: Ipv4Addr { o0: 192, o1: 168, o2: 0, o3: 50 },
            prefix_len: 24,
        }),
        gateway: Some(Ipv4Addr { o0: 192, o1: 168, o2: 0, o3: 1 }),
    }
}

#[test]
fn accepts_on_third_attempt_and_reaches_ready() {
    let mut sup = ConnectionSupervisor::new();
    assert_eq!(sup.step(SupervisorEvent::Started), SupervisorAction::Connect);
    // two refused attempts, each backed off, then acceptance
    for _ in 0..2 {
        assert_eq!(
            sup.step(SupervisorEvent::AssociationFailed(RadioError::Timeout)),
            SupervisorAction::Backoff(BACKOFF_MS)
        );
        assert_eq!(sup.state(), ConnectionState::Disconnected(
            DisconnectReason::AssociationFailed(RadioError::Timeout)
        ));
        assert_eq!(sup.step(SupervisorEvent::BackoffElapsed), SupervisorAction::Connect);
        assert_eq!(sup.state(), ConnectionState::Associating);
    }
    assert_eq!(
        sup.step(SupervisorEvent::AssociationSucceeded),
        SupervisorAction::BeginAcquisition
    );
    sup.step(SupervisorEvent::LinkUp);
    assert_eq!(sup.state(), ConnectionState::AddressPending);
    sup.step(SupervisorEvent::AddressAcquired(bound_binding()));
    assert_eq!(sup.state(), ConnectionState::Ready);
    assert_eq!(sup.generation(), 1);
    assert_eq!(sup.binding(), Some(bound_binding()));
}

#[test]
fn ready_disconnect_goes_back_through_every_phase() {
    let mut sup = ConnectionSupervisor::new();
    sup.step(SupervisorEvent::Started);
    sup.step(SupervisorEvent::AssociationSucceeded);
    sup.step(SupervisorEvent::LinkUp);
    sup.step(SupervisorEvent::AddressAcquired(bound_binding()));
    assert_eq!(sup.state(), ConnectionState::Ready);

    let action = sup.step(SupervisorEvent::Disconnect(DisconnectReason::RadioReported));
    assert_eq!(action, SupervisorAction::Backoff(5000));
    assert_eq!(
        sup.state(),
        ConnectionState::Disconnected(DisconnectReason::RadioReported)
    );
    assert_eq!(sup.binding(), None, "binding must be dropped on link loss");

    // recovery: Associating, Associated, AddressPending, Ready — no skips
    assert_eq!(sup.step(SupervisorEvent::BackoffElapsed), SupervisorAction::Connect);
    assert_eq!(sup.state(), ConnectionState::Associating);
    sup.step(SupervisorEvent::AssociationSucceeded);
    assert_eq!(sup.state(), ConnectionState::Associated);
    sup.step(SupervisorEvent::LinkUp);
    assert_eq!(sup.state(), ConnectionState::AddressPending);
    sup.step(SupervisorEvent::AddressAcquired(bound_binding()));
    assert_eq!(sup.state(), ConnectionState::Ready);
    assert_eq!(sup.generation(), 2, "each Ready period is a new generation");
}

#[test]
fn address_acquired_does_not_skip_address_pending() {
    let mut sup = ConnectionSupervisor::new();
    sup.step(SupervisorEvent::Started);
    // still associating: an acquired address cannot jump to Ready
    sup.step(SupervisorEvent::AddressAcquired(bound_binding()));
    assert_eq!(sup.state(), ConnectionState::Associating);
    sup.step(SupervisorEvent::AssociationSucceeded);
    // associated but link not up yet: same
    sup.step(SupervisorEvent::AddressAcquired(bound_binding()));
    assert_eq!(sup.state(), ConnectionState::Associated);
}

#[test]
fn early_disconnect_never_begins_acquisition() {
    let mut sup = ConnectionSupervisor::new();
    sup.step(SupervisorEvent::Started);
    sup.step(SupervisorEvent::AssociationSucceeded);
    assert_eq!(sup.state(), ConnectionState::Associated);
    // the radio drops before the link ever comes up
    let action = sup.step(SupervisorEvent::Disconnect(DisconnectReason::RadioReported));
    assert_ne!(action, SupervisorAction::BeginAcquisition);
    assert_eq!(action, SupervisorAction::Backoff(5000));
    assert_eq!(
        sup.state(),
        ConnectionState::Disconnected(DisconnectReason::RadioReported)
    );
    assert_eq!(sup.step(SupervisorEvent::BackoffElapsed), SupervisorAction::Connect);
    assert_eq!(sup.state(), ConnectionState::Associating);
}

#[test]
fn unbound_binding_cannot_enter_ready() {
    let mut sup = ConnectionSupervisor::new();
    sup.step(SupervisorEvent::Started);
    sup.step(SupervisorEvent::AssociationSucceeded);
    sup.step(SupervisorEvent::LinkUp);
    let empty = IpBinding::empty(IpMode::Dhcp);
    sup.step(SupervisorEvent::AddressAcquired(empty));
    assert_eq!(sup.state(), ConnectionState::AddressPending);
}

#[test]
fn disconnect_while_idle_changes_nothing() {
    let mut sup = ConnectionSupervisor::new();
    let action = sup.step(SupervisorEvent::Disconnect(DisconnectReason::AddressLost));
    assert_eq!(action, SupervisorAction::Nothing);
    assert_eq!(sup.state(), ConnectionState::Idle);
}
