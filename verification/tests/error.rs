use wg_waybar::error::{
    Error, MissingPropertyError, MissingSectionError, PeerConfigError, ProcessNotFoundError,
    SignalError, SignalOutOfRangeError, UnCaughtError,
};

fn s(text: &str) -> String {
    text.to_string()
}

#[test]
fn small_errors_render_their_text() {
    assert_eq!(
        MissingSectionError(s("Interface")).to_string(),
        "Missing section Interface in WireGuard configuration file"
    );
    assert_eq!(
        MissingPropertyError(s("Address is missing")).to_string(),
        "Missing property: Address is missing"
    );
    assert_eq!(UnCaughtError(s("oops")).to_string(), "oops");
    assert_eq!(
        SignalOutOfRangeError(s("too high")).to_string(),
        "Signal out of allowed range: too high"
    );
    assert_eq!(ProcessNotFoundError(s("none")).to_string(), "Process not found: none");
}

#[test]
fn peer_errors_render_their_text() {
    assert_eq!(
        PeerConfigError::EndPoint(s("invalid socket address syntax")).to_string(),
        "Endpoint parsing error: invalid socket address syntax"
    );
    assert_eq!(
        PeerConfigError::MissingProperty(MissingPropertyError(s("x"))).to_string(),
        "Missing property: x"
    );
    assert_eq!(
        PeerConfigError::InvalidPublicKey { message: s("Public key must be 32 bytes") }.to_string(),
        "Invalid public key: Public key must be 32 bytes"
    );
}

#[test]
fn signal_errors_render_their_text() {
    assert_eq!(
        SignalError::OutOfRange(SignalOutOfRangeError(s("a"))).to_string(),
        "Signal out of allowed range: a"
    );
    assert_eq!(
        SignalError::ProcessNotFound(ProcessNotFoundError(s("b"))).to_string(),
        "Process not found: b"
    );
    assert_eq!(SignalError::OS(s("c")).to_string(), "OS error: c");
}

#[test]
fn every_error_renders_its_text() {
    assert_eq!(Error::IO(s("denied")).to_string(), "I/O error: denied");
    assert_eq!(Error::Ini(s("1:2 bad")).to_string(), "INI parsing error: 1:2 bad");
    assert_eq!(
        Error::MissingSection(MissingSectionError(s("Interface"))).to_string(),
        "Missing section Interface in WireGuard configuration file"
    );
    assert_eq!(
        Error::MissingProperty(MissingPropertyError(s("PrivateKey is missing"))).to_string(),
        "Missing property: PrivateKey is missing"
    );
    assert_eq!(
        Error::PeerConfig(PeerConfigError::InvalidPublicKey { message: s("m") }).to_string(),
        "Invalid public key: m"
    );
    assert_eq!(Error::Signal(SignalError::OS(s("x"))).to_string(), "SignalError: OS error: x");
    assert_eq!(
        Error::InvalidFormat { message: s("Invalid IP: x") }.to_string(),
        "Invalid format: Invalid IP: x"
    );
    assert_eq!(Error::WireGuardApi(s("boom")).to_string(), "WireGuard API error: boom");
    assert_eq!(Error::Base64(s("bad")).to_string(), "Base64 decoding error: bad");
    assert_eq!(Error::UserNotFound(s("eve")).to_string(), "UserNotFound error: eve");
    assert_eq!(Error::Serde(s("eof")).to_string(), "SerdeError: eof");
    assert_eq!(Error::UnCaught(UnCaughtError(s("u"))).to_string(), "UnCaughtError: u");
}

#[test]
fn errors_convert_into_the_wider_ones() {
    assert_eq!(Error::from(UnCaughtError(s("u"))), Error::UnCaught(UnCaughtError(s("u"))));
    assert_eq!(Error::from(SignalError::OS(s("o"))), Error::Signal(SignalError::OS(s("o"))));
    assert_eq!(
        Error::from(MissingSectionError(s("a"))),
        Error::MissingSection(MissingSectionError(s("a")))
    );
    assert_eq!(
        Error::from(MissingPropertyError(s("b"))),
        Error::MissingProperty(MissingPropertyError(s("b")))
    );
    assert_eq!(
        Error::from(PeerConfigError::EndPoint(s("c"))),
        Error::PeerConfig(PeerConfigError::EndPoint(s("c")))
    );
    assert_eq!(
        PeerConfigError::from(MissingPropertyError(s("d"))),
        PeerConfigError::MissingProperty(MissingPropertyError(s("d")))
    );
    assert_eq!(
        SignalError::from(ProcessNotFoundError(s("e"))),
        SignalError::ProcessNotFound(ProcessNotFoundError(s("e")))
    );
    assert_eq!(
        SignalError::from(SignalOutOfRangeError(s("f"))),
        SignalError::OutOfRange(SignalOutOfRangeError(s("f")))
    );
}
