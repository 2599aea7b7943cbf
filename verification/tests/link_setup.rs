use wifi_link::credentials::{LinkCredentials, RadioMode};
use wifi_link::errors::{ConfigError, RadioError};
use wifi_link::music::Song;
use wifi_link::net_seed;
use wifi_link::radio::RadioLink;

#[test]
fn good_credentials_are_stored_verbatim() {
    let c = LinkCredentials::new(b"esp-wifi", b"s3cret pass", RadioMode::Station).unwrap();
    assert_eq!(c.ssid().as_slice(), b"esp-wifi");
    assert_eq!(c.passphrase().as_slice(), b"s3cret pass");
    assert_eq!(c.mode(), RadioMode::Station);
    let open_network = LinkCredentials::new(b"guest", b"", RadioMode::AccessPoint).unwrap();
    assert_eq!(open_network.passphrase().len(), 0);
}

#[test]
fn each_credential_defect_is_named() {
    assert_eq!(
        LinkCredentials::new(b"", b"pw", RadioMode::Station).unwrap_err(),
        ConfigError::SsidLength
    );
    let long_ssid = [b'a'; 33];
    assert_eq!(
        LinkCredentials::new(&long_ssid, b"pw", RadioMode::Station).unwrap_err(),
        ConfigError::SsidLength
    );
    let max_ssid = [b'a'; 32];
    assert!(LinkCredentials::new(&max_ssid, b"pw", RadioMode::Station).is_ok());
    assert_eq!(
        LinkCredentials::new(b"bad\nname", b"pw", RadioMode::Station).unwrap_err(),
        ConfigError::SsidCharset
    );
    let long_pass = [b'x'; 65];
    assert_eq!(
        LinkCredentials::new(b"net", &long_pass, RadioMode::Station).unwrap_err(),
        ConfigError::PassphraseLength
    );
    let max_pass = [b'x'; 64];
    assert!(LinkCredentials::new(b"net", &max_pass, RadioMode::Station).is_ok());
    assert_eq!(
        LinkCredentials::new(b"net", b"tab\tin pass", RadioMode::Station).unwrap_err(),
        ConfigError::PassphraseCharset
    );
}

#[test]
fn radio_lifecycle_in_order() {
    let mut radio = RadioLink::new();
    assert_eq!(radio.start(), Err(RadioError::NotConfigured));
    assert_eq!(radio.request_connect(), Err(RadioError::NotStarted));
    radio.configure(b"esp-wifi", b"password", RadioMode::Station).unwrap();
    assert_eq!(radio.start(), Ok(()));
    assert_eq!(radio.start(), Ok(()), "start is idempotent");
    assert!(!radio.is_connected());
    radio.request_connect().unwrap();
    // mid-association the radio refuses reconfiguration
    assert_eq!(
        radio.configure(b"other", b"password", RadioMode::Station),
        Err(ConfigError::Busy)
    );
    assert_eq!(radio.resolve_connect(Ok(())), Ok(()));
    assert!(radio.is_connected());
    radio.on_disconnect();
    assert!(!radio.is_connected());
}

#[test]
fn association_failure_is_classified_not_retried() {
    let mut radio = RadioLink::new();
    radio.configure(b"esp-wifi", b"password", RadioMode::Station).unwrap();
    radio.start().unwrap();
    radio.request_connect().unwrap();
    assert_eq!(
        radio.resolve_connect(Err(RadioError::ApNotFound)),
        Err(RadioError::ApNotFound)
    );
    assert!(!radio.is_connected());
    // the supervisor decides when to try again; the radio just accepts it
    radio.request_connect().unwrap();
    assert_eq!(radio.resolve_connect(Ok(())), Ok(()));
    assert!(radio.is_connected());
}

#[test]
fn malformed_credentials_never_reach_the_radio() {
    let mut radio = RadioLink::new();
    assert_eq!(
        radio.configure(b"", b"password", RadioMode::Station),
        Err(ConfigError::SsidLength)
    );
    assert_eq!(radio.start(), Err(RadioError::NotConfigured));
}

#[test]
fn seed_combines_both_draws() {
    assert_eq!(net_seed(0, 0), 0);
    assert_eq!(net_seed(0xdead_beef, 0), 0xdead_beef);
    assert_eq!(net_seed(0, 1), 0x1_0000_0000);
    assert_eq!(net_seed(0x89ab_cdef, 0x0123_4567), 0x0123_4567_89ab_cdef);
}

#[test]
fn note_durations_follow_the_tempo() {
    let song = Song::new(60);
    // a whole note at 60 beats per minute lasts four seconds
    assert_eq!(song.calc_note_duration(1), 4000);
    assert_eq!(song.calc_note_duration(4), 1000);
    assert_eq!(song.calc_note_duration(8), 500);
    // a dotted note lasts half again as long
    assert_eq!(song.calc_note_duration(-4), 1500);
    assert_eq!(song.calc_note_duration(-8), 750);
}

#[test]
fn dotted_note_rounding_truncates() {
    let song = Song::new(144);
    assert_eq!(song.calc_note_duration(8), 208);
    assert_eq!(song.calc_note_duration(-8), 312);
    let brisk = Song::new(7);
    assert_eq!(brisk.calc_note_duration(3), 11428);
    assert_eq!(brisk.calc_note_duration(-3), 17142);
}
