//! Reading of what the operator types when registering a unit: the
//! platform's address, the registration token and the port.

use crate::installer_config::{unit_on, InstallerConfig};
use crate::util::text::{chars_of, parse_u32, parse_unsigned, str_eq, trim, trimmed};
use vstd::prelude::*;
use vstd::string::StrSliceExecFns;

verus! {

/// Address of the platform where the operator names none.
pub const DEFAULT_URL: &'static str = "https://blocklang.com";

/// The port that a unit gets where the operator names none.
pub const DEFAULT_PORT: u32 = 80;

/// Why a text is no address.
#[derive(Clone, Copy, Debug, PartialEq, Eq, Structural)]
pub enum UrlFault {
    /// The address names no host.
    EmptyHost,
    /// Anything else.
    Malformed,
}

/// Why an address was turned down.
#[derive(Clone, Copy, Debug, PartialEq, Eq, Structural)]
pub enum UrlError {
    /// The address names no host.
    EmptyHost,
    /// The text is no address.
    Invalid,
    /// The address is neither for `http` nor for `https`.
    UnsupportedScheme,
}

/// The scheme of the address that `text` holds, or why `text` is none.
pub uninterp spec fn parsed_scheme(text: Seq<char>) -> Result<Seq<char>, UrlFault>;

/// Calls `url::Url::parse` and, of an address, `Url::scheme`. Of the ways
/// in which parsing fails, only a missing host is told apart. The result
/// is taken to depend on the characters of `text` alone.
#[verifier::external_body]
fn parse_scheme(text: &str) -> (r: Result<String, UrlFault>)
    ensures
        match parsed_scheme(text@) {
            Ok(scheme) => r matches Ok(s) && s@ == scheme,
            Err(e) => r matches Err(x) && x == e,
        },
{
    match url::Url::parse(text) {
        Ok(address) => Ok(address.scheme().to_string()),
        Err(url::ParseError::EmptyHost) => Err(UrlFault::EmptyHost),
        Err(_) => Err(UrlFault::Malformed),
    }
}

/// The text to take for what was typed: without the whitespace around it,
/// and `default` where nothing else is left.
pub open spec fn answer_or(typed: Seq<char>, default: Seq<char>) -> Seq<char> {
    if trimmed(typed).len() == 0 {
        default
    } else {
        trimmed(typed)
    }
}

/// The verdict on an address whose parsing gave `outcome`: it must be an
/// address for `http` or `https`.
pub open spec fn url_verdict(outcome: Result<Seq<char>, UrlFault>) -> Result<(), UrlError> {
    match outcome {
        Ok(scheme) => if scheme == "http"@ || scheme == "https"@ {
            Ok(())
        } else {
            Err(UrlError::UnsupportedScheme)
        },
        Err(UrlFault::EmptyHost) => Err(UrlError::EmptyHost),
        Err(UrlFault::Malformed) => Err(UrlError::Invalid),
    }
}

/// Judges an address by what parsing it gave.
pub fn judge_url(outcome: Result<String, UrlFault>) -> (r: Result<(), UrlError>)
    ensures
        r == url_verdict(
            match outcome {
                Ok(scheme) => Ok(scheme@),
                Err(e) => Err(e),
            },
        ),
{
    match outcome {
        Ok(scheme) => {
            if str_eq(scheme.as_str(), "http") || str_eq(scheme.as_str(), "https") {
                Ok(())
            } else {
                Err(UrlError::UnsupportedScheme)
            }
        },
        Err(UrlFault::EmptyHost) => Err(UrlError::EmptyHost),
        Err(UrlFault::Malformed) => Err(UrlError::Invalid),
    }
}

fn answer(typed: &str, default: &str) -> (r: String)
    ensures
        r@ == answer_or(typed@, default@),
{
    let text = trim(typed);
    if text.as_str().unicode_len() == 0 {
        default.to_owned()
    } else {
        text
    }
}

/// Reads the address of the platform from what the operator typed: the
/// text without the whitespace around it, or the usual address where that
/// is empty. The address is accepted if it parses and is for `http` or
/// `https`.
pub fn read_url(typed: &str) -> (r: Result<String, UrlError>)
    ensures
        match url_verdict(parsed_scheme(answer_or(typed@, DEFAULT_URL@))) {
            Ok(()) => r matches Ok(address) && address@ == answer_or(typed@, DEFAULT_URL@),
            Err(e) => r matches Err(x) && x == e,
        },
{
    let address = answer(typed, DEFAULT_URL);
    match judge_url(parse_scheme(address.as_str())) {
        Ok(()) => Ok(address),
        Err(e) => Err(e),
    }
}

/// Reads the registration token from what the operator typed: the text
/// without the whitespace around it.
pub fn read_token(typed: &str) -> (r: String)
    ensures
        r@ == trimmed(typed@),
{
    trim(typed)
}

/// The port that a text names.
pub open spec fn port_in(typed: Seq<char>) -> Option<u32> {
    if trimmed(typed).len() == 0 {
        Some(DEFAULT_PORT)
    } else {
        match parse_unsigned(trimmed(typed), u32::MAX as nat) {
            Some(n) => Some(n as u32),
            None => None,
        }
    }
}

/// Reads the port for a unit from what the operator typed: a number, or
/// the usual port where nothing is typed. `None` where the text is no
/// number that can be a port.
pub fn read_port(typed: &str) -> (r: Option<u32>)
    ensures
        r == port_in(typed@),
{
    let text = trim(typed);
    let chars = chars_of(text.as_str());
    if chars.len() == 0 {
        Some(DEFAULT_PORT)
    } else {
        parse_u32(&chars)
    }
}

/// Whether a port can take a new unit.
#[derive(Debug, PartialEq)]
pub enum PortVerdict {
    /// The application `app_name` is registered on the port. It has to be
    /// unregistered first.
    Registered { app_name: String },
    /// No unit is registered on the port, and something else listens there.
    Occupied,
    /// The port can take the unit.
    Free,
}

/// A `PortVerdict` as text.
pub enum PortVerdictModel {
    Registered { app_name: Seq<char> },
    Occupied,
    Free,
}

impl DeepView for PortVerdict {
    type V = PortVerdictModel;

    open spec fn deep_view(&self) -> PortVerdictModel {
        match self {
            PortVerdict::Registered { app_name } => PortVerdictModel::Registered {
                app_name: app_name@,
            },
            PortVerdict::Occupied => PortVerdictModel::Occupied,
            PortVerdict::Free => PortVerdictModel::Free,
        }
    }
}

/// Judges the port chosen for a new unit against the units that are
/// registered and against `process`, the process that holds the port.
pub fn check_port(
    installer_config: &InstallerConfig,
    app_run_port: u32,
    process: Option<u32>,
) -> (r: PortVerdict)
    ensures
        r.deep_view() == match unit_on(installer_config.deep_view().data.installers, app_run_port) {
            Some(unit) => PortVerdictModel::Registered { app_name: unit.app_name },
            None => if process is Some {
                PortVerdictModel::Occupied
            } else {
                PortVerdictModel::Free
            },
        },
{
    match installer_config.get_by_port(app_run_port) {
        Some(unit) => PortVerdict::Registered { app_name: unit.app_name.clone() },
        None => match process {
            Some(_) => PortVerdict::Occupied,
            None => PortVerdict::Free,
        },
    }
}

} // verus!
