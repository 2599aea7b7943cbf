//! The radio lifecycle as the library tracks it: configure credentials,
//! start the radio, ask for association, and record the association's
//! outcome and later disconnects. The hardware driver performs each step
//! outside; this state machine decides what is allowed and what each
//! outcome means, so nothing here suspends or touches a peripheral.

use vstd::prelude::*;
use crate::credentials::LinkCredentials;
use crate::credentials::RadioMode;
use crate::credentials::credential_defect;
use crate::errors::ConfigError;
use crate::errors::RadioError;

verus! {

/// Radio-facing state: what has been configured and confirmed so far.
pub struct RadioLink {
    credentials: Option<LinkCredentials>,
    started: bool,
    associating: bool,
    connected: bool,
}

impl RadioLink {
    /// Credentials the radio was last configured with, if any.
    pub closed spec fn credentials_spec(self) -> Option<LinkCredentials> {
        self.credentials
    }

    /// `configure` has succeeded at least once.
    pub open spec fn is_configured(self) -> bool {
        self.credentials_spec() is Some
    }

    /// `start` has succeeded.
    pub closed spec fn is_started(self) -> bool {
        self.started
    }

    /// An association attempt is in flight and its outcome is unknown.
    pub closed spec fn is_associating(self) -> bool {
        self.associating
    }

    /// The radio has confirmed association and no disconnect followed.
    pub closed spec fn connected(self) -> bool {
        self.connected
    }

    /// A fresh radio: nothing configured, nothing running.
    pub fn new() -> (r: RadioLink)
        ensures
            !r.is_configured(),
            !r.is_started(),
            !r.is_associating(),
            !r.connected(),
    {
        RadioLink { credentials: None, started: false, associating: false, connected: false }
    }

    /// Validate and install credentials. Fails on malformed input with
    /// the defect found, and with `Busy` while an association attempt is
    /// in flight; nothing else about the radio changes either way.
    pub fn configure(&mut self, ssid: &[u8], passphrase: &[u8], mode: RadioMode) -> (r: Result<
        (),
        ConfigError,
    >)
        ensures
            final(self).is_started() == old(self).is_started(),
            final(self).is_associating() == old(self).is_associating(),
            final(self).connected() == old(self).connected(),
            old(self).is_associating() ==> r == Err::<(), ConfigError>(ConfigError::Busy)
                && final(self).credentials_spec() == old(self).credentials_spec(),
            !old(self).is_associating() ==> match r {
                Ok(()) => {
                    &&& credential_defect(ssid@, passphrase@) is None
                    &&& final(self).credentials_spec() matches Some(c)
                    &&& c.ssid_bytes() == ssid@
                    &&& c.passphrase_bytes() == passphrase@
                    &&& c.mode_spec() == mode
                },
                Err(e) => credential_defect(ssid@, passphrase@) == Some(e)
                    && final(self).credentials_spec() == old(self).credentials_spec(),
            },
    {
        if self.associating {
            return Err(ConfigError::Busy);
        }
        match LinkCredentials::new(ssid, passphrase, mode) {
            Ok(c) => {
                self.credentials = Some(c);
                Ok(())
            },
            Err(e) => Err(e),
        }
    }

    /// Start the radio. A no-op when already started; fails only when
    /// nothing has been configured yet, which is a programming defect.
    pub fn start(&mut self) -> (r: Result<(), RadioError>)
        ensures
            final(self).credentials_spec() == old(self).credentials_spec(),
            final(self).is_associating() == old(self).is_associating(),
            final(self).connected() == old(self).connected(),
            old(self).is_configured() ==> r is Ok && final(self).is_started(),
            !old(self).is_configured() ==> r == Err::<(), RadioError>(RadioError::NotConfigured)
                && final(self).is_started() == old(self).is_started(),
    {
        if self.credentials.is_none() {
            return Err(RadioError::NotConfigured);
        }
        self.started = true;
        Ok(())
    }

    /// Ask for association: marks an attempt in flight whose outcome the
    /// driver will report to `resolve_connect`. Fails when the radio was
    /// never started.
    pub fn request_connect(&mut self) -> (r: Result<(), RadioError>)
        ensures
            final(self).credentials_spec() == old(self).credentials_spec(),
            final(self).is_started() == old(self).is_started(),
            final(self).connected() == old(self).connected(),
            old(self).is_started() ==> r is Ok && final(self).is_associating(),
            !old(self).is_started() ==> r == Err::<(), RadioError>(RadioError::NotStarted)
                && final(self).is_associating() == old(self).is_associating(),
    {
        if !self.started {
            return Err(RadioError::NotStarted);
        }
        self.associating = true;
        Ok(())
    }

    /// Record the radio's answer to the attempt in flight: connected on
    /// success, and on failure the classified error is handed back for
    /// the supervisor's retry policy — never retried here.
    pub fn resolve_connect(&mut self, outcome: Result<(), RadioError>) -> (r: Result<
        (),
        RadioError,
    >)
        requires
            old(self).is_associating(),
        ensures
            final(self).credentials_spec() == old(self).credentials_spec(),
            final(self).is_started() == old(self).is_started(),
            !final(self).is_associating(),
            r == outcome,
            final(self).connected() == (outcome is Ok),
    {
        self.associating = false;
        self.connected = outcome.is_ok();
        outcome
    }

    /// The radio has a confirmed association right now. Not stable across
    /// any suspension point: re-check after waiting.
    pub fn is_connected(&self) -> (r: bool)
        ensures
            r == self.connected(),
    {
        self.connected
    }

    /// Record a disconnect event reported by the radio.
    pub fn on_disconnect(&mut self)
        ensures
            final(self).credentials_spec() == old(self).credentials_spec(),
            final(self).is_started() == old(self).is_started(),
            final(self).is_associating() == old(self).is_associating(),
            !final(self).connected(),
    {
        self.connected = false;
    }
}

} // verus!
