//! Link credentials: the network name and passphrase a deployment
//! supplies, checked for length and character set before the radio ever
//! sees them, together with the radio's operating mode.

use vstd::prelude::*;
use vstd::slice::slice_to_vec;
use crate::errors::ConfigError;

verus! {

/// Longest network name the radio accepts, in bytes.
pub const SSID_MAX: usize = 32;

/// Longest passphrase the radio accepts, in bytes.
pub const PASSPHRASE_MAX: usize = 64;

/// Whether the radio joins a network or offers one.
#[derive(Clone, Copy, Debug, PartialEq, Eq, Structural)]
pub enum RadioMode {
    Station,
    AccessPoint,
}

/// The byte is printable ASCII.
pub open spec fn is_printable(b: u8) -> bool {
    0x20 <= b <= 0x7e
}

/// Every byte of `s` is printable ASCII.
pub open spec fn all_printable(s: Seq<u8>) -> bool {
    forall|i: int| 0 <= i < s.len() ==> is_printable(#[trigger] s[i])
}

/// A usable network name: nonempty, bounded, printable.
pub open spec fn valid_ssid(s: Seq<u8>) -> bool {
    1 <= s.len() <= SSID_MAX && all_printable(s)
}

/// A usable passphrase: bounded and printable; empty for an open network.
pub open spec fn valid_passphrase(s: Seq<u8>) -> bool {
    s.len() <= PASSPHRASE_MAX && all_printable(s)
}

/// The first defect in a credential pair, in the order the checks run:
/// name length, name charset, passphrase length, passphrase charset.
pub open spec fn credential_defect(ssid: Seq<u8>, passphrase: Seq<u8>) -> Option<ConfigError> {
    if !(1 <= ssid.len() <= SSID_MAX) {
        Some(ConfigError::SsidLength)
    } else if !all_printable(ssid) {
        Some(ConfigError::SsidCharset)
    } else if passphrase.len() > PASSPHRASE_MAX {
        Some(ConfigError::PassphraseLength)
    } else if !all_printable(passphrase) {
        Some(ConfigError::PassphraseCharset)
    } else {
        None
    }
}

/// Whether every byte of `s` is printable ASCII.
fn bytes_printable(s: &[u8]) -> (r: bool)
    ensures
        r == all_printable(s@),
{
    let n = s.len();
    let mut i: usize = 0;
    while i < n
        invariant
            i <= n,
            n == s@.len(),
            forall|k: int| 0 <= k < i ==> is_printable(#[trigger] s@[k]),
        decreases n - i,
    {
        let b = s[i];
        if b < 0x20 || b > 0x7e {
            return false;
        }
        i = i + 1;
    }
    true
}

/// A checked credential pair. Immutable once built: construction rejects
/// malformed input, so a value of this type is always usable.
#[derive(Debug)]
pub struct LinkCredentials {
    ssid: Vec<u8>,
    passphrase: Vec<u8>,
    mode: RadioMode,
}

impl LinkCredentials {
    /// The stored network name.
    pub closed spec fn ssid_bytes(self) -> Seq<u8> {
        self.ssid@
    }

    /// The stored passphrase.
    pub closed spec fn passphrase_bytes(self) -> Seq<u8> {
        self.passphrase@
    }

    /// The stored operating mode.
    pub closed spec fn mode_spec(self) -> RadioMode {
        self.mode
    }

    /// Every stored credential pair passed validation.
    pub open spec fn wf(self) -> bool {
        valid_ssid(self.ssid_bytes()) && valid_passphrase(self.passphrase_bytes())
    }

    /// Validate and store a credential pair. Succeeds exactly on input
    /// with no defect, and otherwise names the first defect found.
    pub fn new(ssid: &[u8], passphrase: &[u8], mode: RadioMode) -> (r: Result<
        LinkCredentials,
        ConfigError,
    >)
        ensures
            match r {
                Ok(c) => {
                    &&& credential_defect(ssid@, passphrase@) is None
                    &&& c.ssid_bytes() == ssid@
                    &&& c.passphrase_bytes() == passphrase@
                    &&& c.mode_spec() == mode
                    &&& c.wf()
                },
                Err(e) => credential_defect(ssid@, passphrase@) == Some(e),
            },
    {
        if ssid.len() < 1 || ssid.len() > SSID_MAX {
            return Err(ConfigError::SsidLength);
        }
        if !bytes_printable(ssid) {
            return Err(ConfigError::SsidCharset);
        }
        if passphrase.len() > PASSPHRASE_MAX {
            return Err(ConfigError::PassphraseLength);
        }
        if !bytes_printable(passphrase) {
            return Err(ConfigError::PassphraseCharset);
        }
        Ok(LinkCredentials { ssid: slice_to_vec(ssid), passphrase: slice_to_vec(passphrase), mode })
    }

    /// The network name, for the radio driver.
    pub fn ssid(&self) -> (r: &Vec<u8>)
        ensures
            r@ == self.ssid_bytes(),
    {
        &self.ssid
    }

    /// The passphrase, for the radio driver.
    pub fn passphrase(&self) -> (r: &Vec<u8>)
        ensures
            r@ == self.passphrase_bytes(),
    {
        &self.passphrase
    }

    /// The operating mode, for the radio driver.
    pub fn mode(&self) -> (r: RadioMode)
        ensures
            r == self.mode_spec(),
    {
        self.mode
    }
}

impl Clone for LinkCredentials {
    /// A clone carries the same checked credentials.
    fn clone(&self) -> (r: Self)
        ensures
            r.ssid_bytes() == self.ssid_bytes(),
            r.passphrase_bytes() == self.passphrase_bytes(),
            r.mode_spec() == self.mode_spec(),
    {
        LinkCredentials {
            ssid: self.ssid.clone(),
            passphrase: self.passphrase.clone(),
            mode: self.mode,
        }
    }
}

} // verus!
