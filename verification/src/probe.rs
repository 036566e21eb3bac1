//! This module defines and handles the Prometheus probe target models and resolution.
//!
//! Therefore, this includes the necessary logic to deserialize, validate and convert the supplied information as well
//! as resolve the real target address. The conversion is based on the defaults of Minecraft, and therefore relevant
//! default values and SRV records are considered while resolving the dynamic target address. It is the responsibility
//! of this module to standardize the desired probing that should be performed for a request.

pub mod address;
pub mod resolution;

pub use address::{AddressError, ProbeAddressVisitor};
pub use resolution::{DnsRecord, Endpoint, ResolutionProgress, ResolutionStep};

use crate::number;
use vstd::prelude::*;
use vstd::string::*;

verus! {

/// The internal error type for all [`ProbingInfo`] related errors.
///
/// This includes errors with the resolution of the [`TargetAddress`] or any other errors that may occur while trying to
/// make sense of the supplied probe target information. Any [`Error`] results in mcexport not being able to perform
/// any ping of the desired probe.
#[derive(Debug)]
pub enum Error {
    /// The resolution failed because there was a communication error with the responsible DNS name server.
    ResolutionFail(String),
    /// The resolution failed because no valid A record was specified for the supplied (or configured) hostname.
    CouldNotResolveIp(String),
}

impl Error {
    /// The text that describes this error.
    pub open spec fn text(&self) -> Seq<char> {
        match self {
            Error::ResolutionFail(cause) => "failed to resolve a DNS record: "@ + cause@,
            Error::CouldNotResolveIp(hostname) => "could not resolve any \"A\" DNS entries for hostname \""@ + hostname@
                + "\""@,
        }
    }

    /// Returns the text that describes this error.
    pub fn message(&self) -> (text: String)
        ensures
            text@ == self.text(),
    {
        match self {
            Error::ResolutionFail(cause) => {
                let mut text = "failed to resolve a DNS record: ".to_owned();
                text.append(cause.as_str());
                text
            },
            Error::CouldNotResolveIp(hostname) => {
                let mut text = "could not resolve any \"A\" DNS entries for hostname \"".to_owned();
                text.append(hostname.as_str());
                text.append("\"");
                text
            },
        }
    }
}

/// An IP address, with its bytes in network order.
#[derive(Clone, Copy, Debug, PartialEq, Eq)]
pub enum IpAddress {
    /// An address of version 4.
    V4([u8; 4]),
    /// An address of version 6.
    V6([u8; 16]),
}

/// The combination of an IP address with a port.
#[derive(Clone, Copy, Debug, PartialEq, Eq)]
pub struct SocketAddress {
    /// The IP address.
    pub ip: IpAddress,
    /// The port.
    pub port: u16,
}

/// `ResolutionResult` is the outcome of a DNS resolution for a supplied [`TargetAddress`].
///
/// The result holds the final resolved [`SocketAddress`] of a supplied target [`TargetAddress`]. It is differentiated
/// between the different ways to retrieve the final address. A [`Plain`][plain] resolution, where no SRV record was
/// found and the supplied hostname was directly resolved to the final IP-Address and an [`Srv`][srv] resolution that
/// was performed on the indirect hostname, resolved through the corresponding SRV record.
///
/// [plain]: ResolutionResult::Plain
/// [srv]: ResolutionResult::Srv
#[derive(Clone, Copy, Debug, PartialEq, Eq)]
pub enum ResolutionResult {
    /// There was an SRV record and the resolved IP address is of the target hostname within this record.
    Srv(SocketAddress),
    /// There was no SRV record and the resolved IP address is of the original hostname.
    Plain(SocketAddress),
}

/// `ProbingInfo` is the information supplied by Prometheus for each probe request.
///
/// This information is supplied for each probe request and needs to be used to ping the right target. We cannot handle
/// requests that come without this query information. While the target address is mandatory, the module is completely
/// optional and not required for the correct operation of mcexport.
#[derive(Debug)]
pub struct ProbingInfo {
    /// The target that mcexport should ping for the corresponding probe request.
    pub target: TargetAddress,
    /// The module that mcexport should use to ping for the corresponding probe request.
    pub module: Option<String>,
}

impl Clone for ProbingInfo {
    fn clone(&self) -> (copy: Self)
        ensures
            copy == *self,
    {
        ProbingInfo {
            target: self.target.clone(),
            module: match &self.module {
                Some(module) => Some(module.clone()),
                None => None,
            },
        }
    }
}

impl ProbingInfo {
    /// The text that shows this information: the target, and the module in parentheses if there is one.
    pub open spec fn text(&self) -> Seq<char> {
        match self.module {
            Some(module) => self.target.text() + " ("@ + module@ + ")"@,
            None => self.target.text(),
        }
    }

    /// Returns the text that shows this information.
    pub fn display(&self) -> (text: String)
        ensures
            text@ == self.text(),
    {
        let mut text = self.target.display();
        match &self.module {
            Some(module) => {
                text.append(" (");
                text.append(module.as_str());
                text.append(")");
            },
            None => {},
        }
        text
    }
}

/// `TargetAddress` is the combination of a hostname or textual IP address with a port.
///
/// This address should be used to issue a probing ping. The information comes from the request of Prometheus and needs
/// to be validated and parsed before it can be used. To get the real target address, the hostname needs to be resolved
/// and the corresponding SRV records need to be considered.
#[derive(Debug, PartialEq, Eq)]
pub struct TargetAddress {
    /// The hostname that should be resolved to the IP address (optionally considering SRV records).
    pub hostname: String,
    /// The port that should be used to ping the Minecraft server (ignored if SRV exists).
    pub port: u16,
}

impl Clone for TargetAddress {
    fn clone(&self) -> (copy: Self)
        ensures
            copy == *self,
    {
        TargetAddress { hostname: self.hostname.clone(), port: self.port }
    }
}

/// The text that shows a hostname with a port.
pub open spec fn address_text(hostname: Seq<char>, port: u16) -> Seq<char> {
    hostname + ":"@ + number::decimal(port as nat)
}

impl TargetAddress {
    /// The text that shows this address.
    pub open spec fn text(&self) -> Seq<char> {
        address_text(self.hostname@, self.port)
    }

    /// Returns the text that shows this address.
    pub fn display(&self) -> (text: String)
        ensures
            text@ == self.text(),
    {
        let mut text = self.hostname.clone();
        text.append(":");
        text.append(number::to_decimal(self.port as u64).as_str());
        text
    }
}

/// The text that shows the information on a probe starts with the target, and names the module in parentheses behind it
/// exactly if there is one.
pub proof fn law_display_names_target_and_module(info: ProbingInfo)
    ensures
        ({
            let n = info.target.text().len() as int;
            &&& info.text().take(n) == info.target.text()
            &&& match info.module {
                None => info.text().len() == n,
                Some(module) => {
                    &&& info.text().len() == n + module@.len() + 3
                    &&& info.text()[n] == ' '
                    &&& info.text()[n + 1] == '('
                    &&& info.text().subrange(n + 2, info.text().len() - 1) == module@
                    &&& info.text().last() == ')'
                },
            }
        }),
{
    reveal_strlit(" (");
    reveal_strlit(")");
    let n = info.target.text().len() as int;
    assert(info.text().take(n) == info.target.text());
    if let Some(module) = info.module {
        assert(info.text().subrange(n + 2, info.text().len() - 1) == module@);
    }
}

} // verus!
