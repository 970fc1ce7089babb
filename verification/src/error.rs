//! Error taxonomy of the tunnel toggler.
//!
//! Every error is plain data: failures reported by collaborators (the INI
//! reader, the base64 decoder, the interface manager, the file system) are
//! carried as the text they displayed. Each type has a mathematical view and a
//! `message` that says, as a sequence of characters, what `to_string` yields.

use vstd::prelude::*;
use vstd::std_specs::convert::FromSpecImpl;
use vstd::string::*;

verus! {

/// A mandatory section is absent from the configuration; holds the section's name.
#[derive(Clone, Debug, PartialEq, Eq)]
pub struct MissingSectionError(pub String);

/// A mandatory property is absent or empty; holds a short description.
#[derive(Clone, Debug, PartialEq, Eq)]
pub struct MissingPropertyError(pub String);

/// A failure that fits no other category; holds its description.
#[derive(Clone, Debug, PartialEq, Eq)]
pub struct UnCaughtError(pub String);

/// The requested signal offset lies outside the real-time signal window.
#[derive(Clone, Debug, PartialEq, Eq)]
pub struct SignalOutOfRangeError(pub String);

/// No process with the expected command name is running.
#[derive(Clone, Debug, PartialEq, Eq)]
pub struct ProcessNotFoundError(pub String);

/// Failures scoped to one peer section.
#[derive(Clone, Debug, PartialEq, Eq)]
pub enum PeerConfigError {
    /// The endpoint is not a socket address; holds the reason.
    EndPoint(String),
    MissingProperty(MissingPropertyError),
    InvalidPublicKey { message: String },
}

/// Failures of the notifier.
#[derive(Clone, Debug, PartialEq, Eq)]
pub enum SignalError {
    OutOfRange(SignalOutOfRangeError),
    ProcessNotFound(ProcessNotFoundError),
    /// Delivery failed at the operating system; holds the reason.
    OS(String),
}

/// Everything that can end an invocation.
#[derive(Clone, Debug, PartialEq, Eq)]
pub enum Error {
    /// A file could not be read or written; holds the system's description.
    IO(String),
    /// The configuration is not INI text; holds the reader's description.
    Ini(String),
    MissingSection(MissingSectionError),
    MissingProperty(MissingPropertyError),
    PeerConfig(PeerConfigError),
    Signal(SignalError),
    InvalidFormat { message: String },
    /// The interface manager reported a failure; holds its description.
    WireGuardApi(String),
    /// A key is not base64; holds the decoder's description.
    Base64(String),
    UserNotFound(String),
    /// The state file is not the expected JSON; holds the decoder's description.
    Serde(String),
    UnCaught(UnCaughtError),
}

/// Mathematical value of a [`PeerConfigError`].
pub enum PeerConfigErrorView {
    EndPoint(Seq<char>),
    MissingProperty(Seq<char>),
    InvalidPublicKey(Seq<char>),
}

/// Mathematical value of a [`SignalError`].
pub enum SignalErrorView {
    OutOfRange(Seq<char>),
    ProcessNotFound(Seq<char>),
    OS(Seq<char>),
}

/// Mathematical value of an [`Error`].
pub enum ErrorView {
    IO(Seq<char>),
    Ini(Seq<char>),
    MissingSection(Seq<char>),
    MissingProperty(Seq<char>),
    PeerConfig(PeerConfigErrorView),
    Signal(SignalErrorView),
    InvalidFormat(Seq<char>),
    WireGuardApi(Seq<char>),
    Base64(Seq<char>),
    UserNotFound(Seq<char>),
    Serde(Seq<char>),
    UnCaught(Seq<char>),
}

/// Text shown for a missing section named `name`.
pub open spec fn missing_section_message(name: Seq<char>) -> Seq<char> {
    "Missing section "@ + name + " in WireGuard configuration file"@
}

/// Text shown for a missing property described by `what`.
pub open spec fn missing_property_message(what: Seq<char>) -> Seq<char> {
    "Missing property: "@ + what
}

/// Text shown for a signal offset outside the window.
pub open spec fn signal_out_of_range_message(what: Seq<char>) -> Seq<char> {
    "Signal out of allowed range: "@ + what
}

/// Text shown when the target process is absent.
pub open spec fn process_not_found_message(what: Seq<char>) -> Seq<char> {
    "Process not found: "@ + what
}

impl PeerConfigErrorView {
    pub open spec fn message(self) -> Seq<char> {
        match self {
            PeerConfigErrorView::EndPoint(m) => "Endpoint parsing error: "@ + m,
            PeerConfigErrorView::MissingProperty(m) => missing_property_message(m),
            PeerConfigErrorView::InvalidPublicKey(m) => "Invalid public key: "@ + m,
        }
    }
}

impl SignalErrorView {
    pub open spec fn message(self) -> Seq<char> {
        match self {
            SignalErrorView::OutOfRange(m) => signal_out_of_range_message(m),
            SignalErrorView::ProcessNotFound(m) => process_not_found_message(m),
            SignalErrorView::OS(m) => "OS error: "@ + m,
        }
    }
}

impl ErrorView {
    pub open spec fn message(self) -> Seq<char> {
        match self {
            ErrorView::IO(m) => "I/O error: "@ + m,
            ErrorView::Ini(m) => "INI parsing error: "@ + m,
            ErrorView::MissingSection(m) => missing_section_message(m),
            ErrorView::MissingProperty(m) => missing_property_message(m),
            ErrorView::PeerConfig(e) => e.message(),
            ErrorView::Signal(e) => "SignalError: "@ + e.message(),
            ErrorView::InvalidFormat(m) => "Invalid format: "@ + m,
            ErrorView::WireGuardApi(m) => "WireGuard API error: "@ + m,
            ErrorView::Base64(m) => "Base64 decoding error: "@ + m,
            ErrorView::UserNotFound(m) => "UserNotFound error: "@ + m,
            ErrorView::Serde(m) => "SerdeError: "@ + m,
            ErrorView::UnCaught(m) => "UnCaughtError: "@ + m,
        }
    }
}

impl View for MissingSectionError {
    type V = Seq<char>;

    open spec fn view(&self) -> Seq<char> {
        self.0@
    }
}

impl View for MissingPropertyError {
    type V = Seq<char>;

    open spec fn view(&self) -> Seq<char> {
        self.0@
    }
}

impl View for UnCaughtError {
    type V = Seq<char>;

    open spec fn view(&self) -> Seq<char> {
        self.0@
    }
}

impl View for SignalOutOfRangeError {
    type V = Seq<char>;

    open spec fn view(&self) -> Seq<char> {
        self.0@
    }
}

impl View for ProcessNotFoundError {
    type V = Seq<char>;

    open spec fn view(&self) -> Seq<char> {
        self.0@
    }
}

impl View for PeerConfigError {
    type V = PeerConfigErrorView;

    open spec fn view(&self) -> PeerConfigErrorView {
        match self {
            PeerConfigError::EndPoint(m) => PeerConfigErrorView::EndPoint(m@),
            PeerConfigError::MissingProperty(e) => PeerConfigErrorView::MissingProperty(e@),
            PeerConfigError::InvalidPublicKey { message } => PeerConfigErrorView::InvalidPublicKey(
                message@,
            ),
        }
    }
}

impl View for SignalError {
    type V = SignalErrorView;

    open spec fn view(&self) -> SignalErrorView {
        match self {
            SignalError::OutOfRange(e) => SignalErrorView::OutOfRange(e@),
            SignalError::ProcessNotFound(e) => SignalErrorView::ProcessNotFound(e@),
            SignalError::OS(m) => SignalErrorView::OS(m@),
        }
    }
}

impl View for Error {
    type V = ErrorView;

    open spec fn view(&self) -> ErrorView {
        match self {
            Error::IO(m) => ErrorView::IO(m@),
            Error::Ini(m) => ErrorView::Ini(m@),
            Error::MissingSection(e) => ErrorView::MissingSection(e@),
            Error::MissingProperty(e) => ErrorView::MissingProperty(e@),
            Error::PeerConfig(e) => ErrorView::PeerConfig(e@),
            Error::Signal(e) => ErrorView::Signal(e@),
            Error::InvalidFormat { message } => ErrorView::InvalidFormat(message@),
            Error::WireGuardApi(m) => ErrorView::WireGuardApi(m@),
            Error::Base64(m) => ErrorView::Base64(m@),
            Error::UserNotFound(m) => ErrorView::UserNotFound(m@),
            Error::Serde(m) => ErrorView::Serde(m@),
            Error::UnCaught(e) => ErrorView::UnCaught(e@),
        }
    }
}

/// `prefix` followed by `rest`.
pub(crate) fn prefixed(prefix: &str, rest: &str) -> (s: String)
    ensures
        s@ == prefix@ + rest@,
{
    String::from_str(prefix).concat(rest)
}

impl MissingSectionError {
    pub fn to_string(&self) -> (s: String)
        ensures
            s@ == missing_section_message(self@),
    {
        prefixed("Missing section ", self.0.as_str()).concat(" in WireGuard configuration file")
    }
}

impl MissingPropertyError {
    pub fn to_string(&self) -> (s: String)
        ensures
            s@ == missing_property_message(self@),
    {
        prefixed("Missing property: ", self.0.as_str())
    }
}

impl UnCaughtError {
    pub fn to_string(&self) -> (s: String)
        ensures
            s@ == self@,
    {
        self.0.clone()
    }
}

impl SignalOutOfRangeError {
    pub fn to_string(&self) -> (s: String)
        ensures
            s@ == signal_out_of_range_message(self@),
    {
        prefixed("Signal out of allowed range: ", self.0.as_str())
    }
}

impl ProcessNotFoundError {
    pub fn to_string(&self) -> (s: String)
        ensures
            s@ == process_not_found_message(self@),
    {
        prefixed("Process not found: ", self.0.as_str())
    }
}

impl PeerConfigError {
    pub fn to_string(&self) -> (s: String)
        ensures
            s@ == self@.message(),
    {
        match self {
            PeerConfigError::EndPoint(m) => prefixed("Endpoint parsing error: ", m.as_str()),
            PeerConfigError::MissingProperty(e) => e.to_string(),
            PeerConfigError::InvalidPublicKey { message } => prefixed(
                "Invalid public key: ",
                message.as_str(),
            ),
        }
    }
}

impl SignalError {
    pub fn to_string(&self) -> (s: String)
        ensures
            s@ == self@.message(),
    {
        match self {
            SignalError::OutOfRange(e) => e.to_string(),
            SignalError::ProcessNotFound(e) => e.to_string(),
            SignalError::OS(m) => prefixed("OS error: ", m.as_str()),
        }
    }
}

impl Error {
    /// The human-readable rendering that is shown to the user and recorded
    /// in the state file.
    pub fn to_string(&self) -> (s: String)
        ensures
            s@ == self@.message(),
    {
        match self {
            Error::IO(m) => prefixed("I/O error: ", m.as_str()),
            Error::Ini(m) => prefixed("INI parsing error: ", m.as_str()),
            Error::MissingSection(e) => e.to_string(),
            Error::MissingProperty(e) => e.to_string(),
            Error::PeerConfig(e) => e.to_string(),
            Error::Signal(e) => {
                let inner = e.to_string();
                prefixed("SignalError: ", inner.as_str())
            },
            Error::InvalidFormat { message } => prefixed("Invalid format: ", message.as_str()),
            Error::WireGuardApi(m) => prefixed("WireGuard API error: ", m.as_str()),
            Error::Base64(m) => prefixed("Base64 decoding error: ", m.as_str()),
            Error::UserNotFound(m) => prefixed("UserNotFound error: ", m.as_str()),
            Error::Serde(m) => prefixed("SerdeError: ", m.as_str()),
            Error::UnCaught(e) => {
                let inner = e.to_string();
                prefixed("UnCaughtError: ", inner.as_str())
            },
        }
    }
}

impl From<UnCaughtError> for Error {
    fn from(value: UnCaughtError) -> (e: Error) {
        Error::UnCaught(value)
    }
}

impl FromSpecImpl<UnCaughtError> for Error {
    open spec fn obeys_from_spec() -> bool {
        true
    }

    open spec fn from_spec(value: UnCaughtError) -> Error {
        Error::UnCaught(value)
    }
}

impl From<SignalError> for Error {
    fn from(value: SignalError) -> (e: Error) {
        Error::Signal(value)
    }
}

impl FromSpecImpl<SignalError> for Error {
    open spec fn obeys_from_spec() -> bool {
        true
    }

    open spec fn from_spec(value: SignalError) -> Error {
        Error::Signal(value)
    }
}

impl From<MissingSectionError> for Error {
    fn from(value: MissingSectionError) -> (e: Error) {
        Error::MissingSection(value)
    }
}

impl FromSpecImpl<MissingSectionError> for Error {
    open spec fn obeys_from_spec() -> bool {
        true
    }

    open spec fn from_spec(value: MissingSectionError) -> Error {
        Error::MissingSection(value)
    }
}

impl From<MissingPropertyError> for Error {
    fn from(value: MissingPropertyError) -> (e: Error) {
        Error::MissingProperty(value)
    }
}

impl FromSpecImpl<MissingPropertyError> for Error {
    open spec fn obeys_from_spec() -> bool {
        true
    }

    open spec fn from_spec(value: MissingPropertyError) -> Error {
        Error::MissingProperty(value)
    }
}

impl From<PeerConfigError> for Error {
    fn from(value: PeerConfigError) -> (e: Error) {
        Error::PeerConfig(value)
    }
}

impl FromSpecImpl<PeerConfigError> for Error {
    open spec fn obeys_from_spec() -> bool {
        true
    }

    open spec fn from_spec(value: PeerConfigError) -> Error {
        Error::PeerConfig(value)
    }
}

impl From<MissingPropertyError> for PeerConfigError {
    fn from(value: MissingPropertyError) -> (e: PeerConfigError) {
        PeerConfigError::MissingProperty(value)
    }
}

impl FromSpecImpl<MissingPropertyError> for PeerConfigError {
    open spec fn obeys_from_spec() -> bool {
        true
    }

    open spec fn from_spec(value: MissingPropertyError) -> PeerConfigError {
        PeerConfigError::MissingProperty(value)
    }
}

impl From<ProcessNotFoundError> for SignalError {
    fn from(value: ProcessNotFoundError) -> (e: SignalError) {
        SignalError::ProcessNotFound(value)
    }
}

impl FromSpecImpl<ProcessNotFoundError> for SignalError {
    open spec fn obeys_from_spec() -> bool {
        true
    }

    open spec fn from_spec(value: ProcessNotFoundError) -> SignalError {
        SignalError::ProcessNotFound(value)
    }
}

impl From<SignalOutOfRangeError> for SignalError {
    fn from(value: SignalOutOfRangeError) -> (e: SignalError) {
        SignalError::OutOfRange(value)
    }
}

impl FromSpecImpl<SignalOutOfRangeError> for SignalError {
    open spec fn obeys_from_spec() -> bool {
        true
    }

    open spec fn from_spec(value: SignalOutOfRangeError) -> SignalError {
        SignalError::OutOfRange(value)
    }
}

} // verus!
