use wifi_link::acquisition::{
    acquire_static, hostname_option, AcquisitionEvent, AcquisitionState, AddressAcquisition,
    IpMode,
};
use wifi_link::errors::ConfigError;
use wifi_link::ipv4::{Ipv4Addr, Ipv4Cidr};
use wifi_link::supervisor::ConnectionState;

#[test]
fn static_configuration_binds_atomically() {
    let binding = acquire_static(b"192.168.4.1/24", b"192.168.4.1").unwrap();
    assert_eq!(binding.mode, IpMode::Static);
    assert_eq!(
        binding.address,
        Some(Ipv4Cidr {
            addr: Ipv4Addr { o0: 192, o1: 168, o2: 4, o3: 1 },
            prefix_len: 24,
        })
    );
    assert_eq!(binding.gateway, Some(Ipv4Addr { o0: 192, o1: 168, o2: 4, o3: 1 }));
}

#[test]
fn malformed_static_address_is_fatal() {
    assert_eq!(
        acquire_static(b"192.168.4.1", b"192.168.4.1"),
        Err(ConfigError::BadStaticAddress),
        "missing prefix length"
    );
    assert_eq!(
        acquire_static(b"192.168.4.1/33", b"192.168.4.1"),
        Err(ConfigError::BadStaticAddress)
    );
    assert_eq!(
        acquire_static(b"192.168.4.1/24", b"192.168.4"),
        Err(ConfigError::BadGateway)
    );
    assert_eq!(
        acquire_static(b"192.168.4.1/24", b"192.168.4.256"),
        Err(ConfigError::BadGateway)
    );
}

#[test]
fn acquisition_begins_only_while_associated() {
    let mut acq = AddressAcquisition::new(IpMode::Dhcp);
    assert!(!acq.begin(&ConnectionState::Idle));
    assert!(!acq.begin(&ConnectionState::Associating));
    assert!(!acq.begin(&ConnectionState::Ready));
    assert_eq!(acq.state(), AcquisitionState::Inactive);
    assert!(acq.begin(&ConnectionState::Associated));
    assert_eq!(acq.state(), AcquisitionState::Pending);
}

#[test]
fn no_offer_means_pending_forever() {
    let mut acq = AddressAcquisition::new(IpMode::Dhcp);
    assert!(acq.begin(&ConnectionState::Associated));
    // the offer never arrives: nothing binds, however long we wait
    for _ in 0..10_000 {
        assert_eq!(acq.poll(&AcquisitionEvent::Waiting), None);
        assert!(!acq.is_bound());
    }
    assert_eq!(acq.state(), AcquisitionState::Pending);
}

#[test]
fn first_offer_binds() {
    let mut acq = AddressAcquisition::new(IpMode::Dhcp);
    assert!(acq.begin(&ConnectionState::Associated));
    let offer = AcquisitionEvent::Offer {
        address: Ipv4Cidr {
            addr: Ipv4Addr { o0: 10, o1: 0, o2: 0, o3: 7 },
            prefix_len: 16,
        },
        gateway: Some(Ipv4Addr { o0: 10, o1: 0, o2: 0, o3: 1 }),
    };
    let binding = acq.poll(&offer).expect("the first valid offer binds");
    assert!(acq.is_bound());
    assert_eq!(binding.mode, IpMode::Dhcp);
    assert_eq!(
        binding.address,
        Some(Ipv4Cidr {
            addr: Ipv4Addr { o0: 10, o1: 0, o2: 0, o3: 7 },
            prefix_len: 16,
        })
    );
    // a later offer changes nothing: the attempt is already bound
    assert_eq!(acq.poll(&offer), None);
    assert_eq!(acq.state(), AcquisitionState::Bound);
}

#[test]
fn link_loss_aborts_acquisition() {
    let mut acq = AddressAcquisition::new(IpMode::Dhcp);
    assert!(acq.begin(&ConnectionState::Associated));
    acq.abort();
    assert_eq!(acq.state(), AcquisitionState::Inactive);
    assert_eq!(acq.poll(&AcquisitionEvent::Waiting), None);
    assert!(!acq.is_bound());
}

#[test]
fn hostname_option_is_option_twelve() {
    let opt = hostname_option(b"implRust");
    assert_eq!(opt.kind, 12);
    assert_eq!(opt.data, b"implRust".to_vec());
}
