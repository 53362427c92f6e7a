//! The failures that an operation of this library can report.

use vstd::prelude::*;

verus! {

/// Why an operation failed.
#[derive(Clone, Copy, Debug, PartialEq, Eq, Structural)]
pub enum Error {
    /// No matching HID token was found, or it went away during the exchange.
    NoDevice,
    /// The user did not present the token within the time budget.
    TimedOut,
    /// The token answered with a status word other than success.
    ProtocolError(u16),
    /// A payload did not match the expected positional layout.
    MalformedResponse,
    /// The attestation certificate could not be parsed.
    InvalidCertificate,
    /// Cryptographic verification of a signature failed.
    InvalidSignature,
}

} // verus!
