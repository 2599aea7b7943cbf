//! Error taxonomy of the link core.
//!
//! `ConfigError` is fatal: it marks a malformed credential or network
//! parameter and aborts startup. `RadioError` is transient and always
//! retried by the supervisor. `AddressError` is transient for DHCP and
//! fatal for a malformed static configuration. `SocketError` is
//! per-operation and recovered by closing and reopening the session.

use vstd::prelude::*;

verus! {

/// A fatal configuration defect, surfaced before any network activity.
#[derive(Clone, Copy, Debug, PartialEq, Eq, Structural)]
pub enum ConfigError {
    /// The network name is empty or longer than the radio accepts.
    SsidLength,
    /// The network name holds a byte outside printable ASCII.
    SsidCharset,
    /// The passphrase is longer than the radio accepts.
    PassphraseLength,
    /// The passphrase holds a byte outside printable ASCII.
    PassphraseCharset,
    /// The static address text is not a well-formed CIDR.
    BadStaticAddress,
    /// The gateway text is not a well-formed IPv4 address.
    BadGateway,
    /// The radio is mid-association and cannot be reconfigured.
    Busy,
}

/// A transient radio-level failure, classified for the supervisor.
#[derive(Clone, Copy, Debug, PartialEq, Eq, Structural)]
pub enum RadioError {
    /// The radio was asked to act before `configure` succeeded.
    NotConfigured,
    /// The radio was asked to associate before `start` succeeded.
    NotStarted,
    /// The access point refused the credentials.
    CredentialsRejected,
    /// No access point with the configured name was found.
    ApNotFound,
    /// The association attempt timed out.
    Timeout,
}

/// Why the supervisor left its previous state for `Disconnected`.
#[derive(Clone, Copy, Debug, PartialEq, Eq, Structural)]
pub enum DisconnectReason {
    /// The radio reported that the association was lost.
    RadioReported,
    /// The bound address was lost (for DHCP, a failed renewal).
    AddressLost,
    /// An association attempt failed with the carried error.
    AssociationFailed(RadioError),
}

/// A per-operation socket failure; the caller closes and may reopen.
#[derive(Clone, Copy, Debug, PartialEq, Eq, Structural)]
pub enum SocketError {
    /// The supervisor is not in `Ready`, so no endpoint may open.
    NotReady,
    /// This session already holds an open endpoint.
    AlreadyOpen,
    /// The endpoint is closed, was reset by the peer, or belongs to an
    /// earlier link generation.
    Closed,
    /// No bytes arrived before the caller's deadline.
    Timeout,
    /// The operation would have to block; try again after a pump step.
    WouldBlock,
}

} // verus!
