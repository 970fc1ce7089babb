//! The command line: which configuration, which command, and with what.

use crate::error::{prefixed, Error, ErrorView};
use crate::status::{Status, StatusOutput, StatusOutputView};
use vstd::prelude::*;
use vstd::string::*;

verus! {

/// The offset of the real-time signal that is sent where none is asked for.
pub const DEFAULT_SIGNAL: i32 = 9;

/// The port that is listened on where neither the command line nor the
/// configuration names one.
pub const DEFAULT_PORT: u32 = 40077;

/// What is to be done, other than to report the status.
#[derive(Clone, Copy, Debug, PartialEq, Eq, Structural)]
pub enum Commands {
    /// Toggle the vpn (switch state)
    Toggle,
}

/// The arguments of an invocation.
#[derive(Clone, Debug, PartialEq, Eq)]
pub struct Cli {
    /// Path to the wireguard configuration file
    pub config: String,
    /// Signal to use
    pub signal: i32,
    /// Enable debug output
    pub debug: bool,
    /// State filename
    pub state_filename: String,
    /// Port for wireguard connection
    pub port: u32,
    pub command: Option<Commands>,
}

/// The name of the file that the path `path` ends in, without its
/// extension; `None` where the path ends in no file name.
pub uninterp spec fn file_stem_of(path: Seq<char>) -> Option<Seq<char>>;

/// `Path::file_stem` of the standard library, on the path that `path`
/// writes, with the stem returned as text.
#[verifier::external_body]
fn file_stem(path: &str) -> (r: Option<String>)
    ensures
        match r {
            Some(stem) => file_stem_of(path@) == Some(stem@),
            None => file_stem_of(path@) is None,
        },
{
    std::path::Path::new(path).file_stem().and_then(|stem| stem.to_str()).map(String::from)
}

/// The name of the interface of a configuration file with the given stem.
pub open spec fn name_of_stem(stem: Option<Seq<char>>) -> Result<Seq<char>, ErrorView> {
    match stem {
        Some(stem) => Ok(stem),
        None => Err(ErrorView::InvalidFormat("Invalid config file name"@)),
    }
}

/// The name of the interface that the configuration at `path` describes:
/// the name of the file without its extension.
pub open spec fn interface_name_of(path: Seq<char>) -> Result<Seq<char>, ErrorView> {
    name_of_stem(file_stem_of(path))
}

/// The outcome of naming an interface.
pub open spec fn name_outcome(r: Result<String, Error>) -> Result<Seq<char>, ErrorView> {
    match r {
        Ok(name) => Ok(name@),
        Err(e) => Err(e@),
    }
}

/// Names the interface of a configuration file with the given stem. A path
/// that ends in no file name names no interface.
pub fn interface_name_from_stem(stem: Option<String>) -> (r: Result<String, Error>)
    ensures
        name_outcome(r) == name_of_stem(
            match stem {
                Some(s) => Some(s@),
                None => None,
            },
        ),
{
    match stem {
        Some(stem) => Ok(stem),
        None => Err(Error::InvalidFormat { message: String::from_str("Invalid config file name") }),
    }
}

/// The status line that reports that the configuration's path names no interface.
pub open spec fn unnamed_line(e: ErrorView) -> StatusOutputView {
    StatusOutputView {
        text: "VPN: Error"@,
        status: Status::Error,
        tooltip: "Failed to parse interface name: "@ + e.message(),
    }
}

impl Cli {
    /// The arguments for the configuration at `config`, with every option
    /// at its default and no command.
    pub fn new(config: String) -> (cli: Cli)
        ensures
            cli.config == config,
            cli.signal == DEFAULT_SIGNAL,
            !cli.debug,
            cli.state_filename@ == "status.json"@,
            cli.port == DEFAULT_PORT,
            cli.command is None,
    {
        Cli {
            config,
            signal: DEFAULT_SIGNAL,
            debug: false,
            state_filename: String::from_str("status.json"),
            port: DEFAULT_PORT,
            command: None,
        }
    }

    /// The name of the interface that the invocation is about.
    pub fn interface_name(&self) -> (r: Result<String, Error>)
        ensures
            name_outcome(r) == interface_name_of(self.config@),
    {
        interface_name_from_stem(file_stem(self.config.as_str()))
    }
}

/// The status line that reports that the configuration's path names no interface.
pub fn unnamed_status(e: &Error) -> (line: StatusOutput)
    ensures
        line@ == unnamed_line(e@),
{
    let shown = e.to_string();
    StatusOutput {
        text: String::from_str("VPN: Error"),
        status: Status::Error,
        tooltip: prefixed("Failed to parse interface name: ", shown.as_str()),
    }
}

} // verus!
