//! Address acquisition: how the interface gets its IPv4 configuration.
//! The static path validates the configured CIDR and gateway text up
//! front — a malformed string is a fatal configuration error. The dynamic
//! path waits for a lease offer from the protocol driver and binds the
//! first valid one; it has no timeout of its own, so with no offer it
//! stays pending until the caller gives up or the link drops.

use vstd::prelude::*;
use vstd::slice::slice_to_vec;
use crate::errors::ConfigError;
use crate::ipv4::Ipv4Addr;
use crate::ipv4::Ipv4Cidr;
use crate::ipv4::cidr_text;
use crate::ipv4::ipv4_text;
use crate::ipv4::parse_cidr;
use crate::ipv4::parse_ipv4;
use crate::supervisor::ConnectionState;

verus! {

/// How the interface gets its address.
#[derive(Clone, Copy, Debug, PartialEq, Eq, Structural)]
pub enum IpMode {
    Dhcp,
    Static,
}

/// The IPv4 configuration of the interface. Created empty, populated
/// atomically when acquisition completes, dropped whole on link loss.
#[derive(Clone, Copy, Debug, PartialEq, Eq)]
pub struct IpBinding {
    pub mode: IpMode,
    pub address: Option<Ipv4Cidr>,
    pub gateway: Option<Ipv4Addr>,
}

impl IpBinding {
    /// An address has been bound.
    pub open spec fn is_bound(self) -> bool {
        self.address is Some
    }

    /// An empty binding: a mode chosen, no address yet.
    pub fn empty(mode: IpMode) -> (b: IpBinding)
        ensures
            b.mode == mode,
            !b.is_bound(),
            b.gateway is None,
    {
        IpBinding { mode, address: None, gateway: None }
    }
}

/// Validate a static deployment's two configuration strings. Succeeds
/// exactly when the first is canonical CIDR text with a prefix length of
/// at most 32 and the second is canonical address text, and then binds
/// both atomically; the error names the string at fault, the address
/// text being checked first.
pub fn acquire_static(cidr_bytes: &[u8], gateway_bytes: &[u8]) -> (r: Result<
    IpBinding,
    ConfigError,
>)
    ensures
        match r {
            Ok(b) => {
                &&& b.mode == IpMode::Static
                &&& b.address matches Some(c) && cidr_text(c) == cidr_bytes@ && c.wf()
                &&& b.gateway matches Some(g) && ipv4_text(g) == gateway_bytes@
            },
            Err(e) => {
                &&& (e == ConfigError::BadStaticAddress || e == ConfigError::BadGateway)
                &&& (e == ConfigError::BadStaticAddress <==> (forall|c: Ipv4Cidr|
                    c.wf() ==> cidr_bytes@ != cidr_text(c)))
                &&& (e == ConfigError::BadGateway ==> (forall|g: Ipv4Addr|
                    gateway_bytes@ != ipv4_text(g)))
            },
        },
{
    let cidr = match parse_cidr(cidr_bytes) {
        Some(c) => c,
        None => {
            return Err(ConfigError::BadStaticAddress);
        },
    };
    let gateway = match parse_ipv4(gateway_bytes) {
        Some(g) => g,
        None => {
            return Err(ConfigError::BadGateway);
        },
    };
    Ok(IpBinding { mode: IpMode::Static, address: Some(cidr), gateway: Some(gateway) })
}

/// What the driver reports while acquisition is pending: a configuration
/// to bind (a DHCP offer, or the validated static configuration applied),
/// or nothing yet.
#[derive(Clone, Copy, Debug, PartialEq, Eq)]
pub enum AcquisitionEvent {
    Offer { address: Ipv4Cidr, gateway: Option<Ipv4Addr> },
    Waiting,
}

/// Where one acquisition attempt stands.
#[derive(Clone, Copy, Debug, PartialEq, Eq, Structural)]
pub enum AcquisitionState {
    /// Not begun, or aborted by link loss.
    Inactive,
    /// Begun and waiting for a configuration to bind.
    Pending,
    /// A configuration is bound.
    Bound,
}

/// What one poll step does: only a pending acquisition binds, and only an
/// offer binds it; waiting changes nothing, without limit.
pub open spec fn acquisition_poll_spec(mode: IpMode, st: AcquisitionState, ev: AcquisitionEvent) -> (
    AcquisitionState,
    Option<IpBinding>,
) {
    if st is Pending {
        match ev {
            AcquisitionEvent::Offer { address, gateway } => (
                AcquisitionState::Bound,
                Some(IpBinding { mode, address: Some(address), gateway }),
            ),
            AcquisitionEvent::Waiting => (AcquisitionState::Pending, None),
        }
    } else {
        (st, None)
    }
}

/// One acquisition attempt for one link generation.
pub struct AddressAcquisition {
    mode: IpMode,
    state: AcquisitionState,
}

impl AddressAcquisition {
    /// The configured mode.
    pub closed spec fn mode_spec(self) -> IpMode {
        self.mode
    }

    /// Where the attempt stands.
    pub closed spec fn state_spec(self) -> AcquisitionState {
        self.state
    }

    /// A fresh attempt in the given mode, not yet begun.
    pub fn new(mode: IpMode) -> (r: AddressAcquisition)
        ensures
            r.mode_spec() == mode,
            r.state_spec() == AcquisitionState::Inactive,
    {
        AddressAcquisition { mode, state: AcquisitionState::Inactive }
    }

    /// Begin acquiring, but only while the link is associated: in any
    /// other supervisor state the attempt refuses to start.
    pub fn begin(&mut self, link: &ConnectionState) -> (r: bool)
        ensures
            final(self).mode_spec() == old(self).mode_spec(),
            r == (*link is Associated || *link is AddressPending),
            r ==> final(self).state_spec() == AcquisitionState::Pending,
            !r ==> final(self).state_spec() == old(self).state_spec(),
    {
        match link {
            ConnectionState::Associated => {
                self.state = AcquisitionState::Pending;
                true
            },
            ConnectionState::AddressPending => {
                self.state = AcquisitionState::Pending;
                true
            },
            _ => false,
        }
    }

    /// Take one driver report. Binds exactly when the attempt is pending
    /// and the report carries a configuration, and then populates the
    /// whole binding at once; anything else leaves everything unchanged.
    pub fn poll(&mut self, ev: &AcquisitionEvent) -> (r: Option<IpBinding>)
        ensures
            final(self).mode_spec() == old(self).mode_spec(),
            (final(self).state_spec(), r) == acquisition_poll_spec(
                old(self).mode_spec(),
                old(self).state_spec(),
                *ev,
            ),
    {
        if !matches!(self.state, AcquisitionState::Pending) {
            return None;
        }
        match ev {
            AcquisitionEvent::Offer { address, gateway } => {
                self.state = AcquisitionState::Bound;
                Some(IpBinding { mode: self.mode, address: Some(*address), gateway: *gateway })
            },
            AcquisitionEvent::Waiting => None,
        }
    }

    /// Abort on link loss: whatever was pending or bound is gone.
    pub fn abort(&mut self)
        ensures
            final(self).mode_spec() == old(self).mode_spec(),
            final(self).state_spec() == AcquisitionState::Inactive,
    {
        self.state = AcquisitionState::Inactive;
    }

    /// Where the attempt stands, for callers that branch on it.
    pub fn state(&self) -> (r: AcquisitionState)
        ensures
            r == self.state_spec(),
    {
        self.state
    }

    /// True only after a lease was confirmed or the validated static
    /// configuration was applied.
    pub fn is_bound(&self) -> (r: bool)
        ensures
            r == (self.state_spec() == AcquisitionState::Bound),
    {
        matches!(self.state, AcquisitionState::Bound)
    }
}

/// The state after a run of driver reports, starting from `st`.
pub open spec fn acquisition_run(
    mode: IpMode,
    st: AcquisitionState,
    evs: Seq<AcquisitionEvent>,
) -> AcquisitionState
    decreases evs.len(),
{
    if evs.len() == 0 {
        st
    } else {
        acquisition_run(mode, acquisition_poll_spec(mode, st, evs[0]).0, evs.drop_first())
    }
}

/// A pending acquisition outlasts any run of reports with no offer in it:
/// it never binds and never fails on its own — there is no internal
/// timeout, so it waits until the caller's own deadline or a link drop
/// intervenes.
pub proof fn lemma_no_offer_no_binding(mode: IpMode, evs: Seq<AcquisitionEvent>)
    requires
        forall|i: int| 0 <= i < evs.len() ==> !(#[trigger] evs[i] is Offer),
    ensures
        acquisition_run(mode, AcquisitionState::Pending, evs) == AcquisitionState::Pending,
    decreases evs.len(),
{
    if evs.len() > 0 {
        assert(!(evs[0] is Offer));
        assert(acquisition_poll_spec(mode, AcquisitionState::Pending, evs[0]).0
            == AcquisitionState::Pending);
        assert(forall|i: int|
            0 <= i < evs.drop_first().len() ==> !(#[trigger] evs.drop_first()[i] is Offer));
        lemma_no_offer_no_binding(mode, evs.drop_first());
    }
}

/// The raw DHCP option a client advertises with its lease request.
pub struct DhcpOptionData {
    pub kind: u8,
    pub data: Vec<u8>,
}

/// Option 12, the host name: the one option this client advertises.
pub fn hostname_option(name: &[u8]) -> (o: DhcpOptionData)
    ensures
        o.kind == 12,
        o.data@ == name@,
{
    DhcpOptionData { kind: 12, data: slice_to_vec(name) }
}

} // verus!
