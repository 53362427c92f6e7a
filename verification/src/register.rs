//! The REGISTER exchange: the command that asks a token for a new credential,
//! and the positional layout of its answer.
//!
//! The answer is one reserved byte, the 65-byte public key, one byte that
//! gives the key handle's length, the key handle, the attestation
//! certificate, and the signature. The certificate is a DER sequence whose own
//! length field says where it ends; what follows it is the signature.

use vstd::prelude::*;
use crate::apdu::{command_frame, encode, INS_REGISTER};
use crate::bytes::{append, be_value, copy_range, lemma_be_value_bound, read_be};
use crate::error::Error;
use crate::hash::{application_id, application_parameter, challenge_hash, challenge_parameter};

verus! {

/// The value of the reserved byte that opens a registration response.
pub const REGISTER_RESERVED_BYTE: u8 = 0x05;

/// Length of an uncompressed P-256 point: `0x04`, then X and Y of 32 bytes each.
pub const PUBLIC_KEY_LEN: usize = 65;

/// The longest key handle that the one-byte length field can announce.
pub const MAX_KEY_HANDLE_LEN: usize = 255;

/// The tag of a DER sequence, with which every certificate begins.
pub const DER_SEQUENCE_TAG: u8 = 0x30;

/// A registration response, taken apart.
#[derive(Debug)]
pub struct RegistrationResult {
    /// The credential's public key, an uncompressed P-256 point.
    pub public_key: Vec<u8>,
    /// The token's opaque name for the credential.
    pub key_handle: Vec<u8>,
    /// The DER certificate of the token's attestation key.
    pub attestation_certificate: Vec<u8>,
    /// The DER signature of the attestation key over the registration.
    pub signature: Vec<u8>,
}

/// What a `RegistrationResult` holds, as plain byte strings.
pub struct RegistrationData {
    pub public_key: Seq<u8>,
    pub key_handle: Seq<u8>,
    pub attestation_certificate: Seq<u8>,
    pub signature: Seq<u8>,
}

impl View for RegistrationResult {
    type V = RegistrationData;

    open spec fn view(&self) -> RegistrationData {
        RegistrationData {
            public_key: self.public_key@,
            key_handle: self.key_handle@,
            attestation_certificate: self.attestation_certificate@,
            signature: self.signature@,
        }
    }
}

impl RegistrationData {
    /// The public key has its fixed length and the key handle's length fits in one byte.
    pub open spec fn well_formed(self) -> bool {
        &&& self.public_key.len() == PUBLIC_KEY_LEN
        &&& self.key_handle.len() <= MAX_KEY_HANDLE_LEN
    }

    /// The response payload that spells this registration.
    pub open spec fn layout(self) -> Seq<u8> {
        seq![REGISTER_RESERVED_BYTE] + self.public_key + seq![self.key_handle.len() as u8]
            + self.key_handle + self.attestation_certificate + self.signature
    }
}

/// The length, header included, of the DER sequence at the start of `bytes`.
///
/// `None` where `bytes` does not start with the sequence tag, where the length
/// is indefinite or takes more than four bytes, or where the header is cut
/// short. The sequence's content may still reach past the end of `bytes`.
pub open spec fn der_sequence_len(bytes: Seq<u8>) -> Option<nat> {
    if bytes.len() < 2 || bytes[0] != DER_SEQUENCE_TAG {
        None
    } else if bytes[1] < 0x80 {
        Some((2 + bytes[1]) as nat)
    } else {
        let n = bytes[1] - 0x80;
        if n == 0 || n > 4 || bytes.len() < 2 + n {
            None
        } else {
            Some((2 + n + be_value(bytes.subrange(2, 2 + n))) as nat)
        }
    }
}

/// The registration that `payload` spells, or `None` where it does not follow the layout.
pub open spec fn parsed_registration(payload: Seq<u8>) -> Option<RegistrationData> {
    if payload.len() < 2 + PUBLIC_KEY_LEN || payload[0] != REGISTER_RESERVED_BYTE {
        None
    } else {
        let certificate_start = 2 + PUBLIC_KEY_LEN + payload[1 + PUBLIC_KEY_LEN as int];
        if payload.len() < certificate_start {
            None
        } else {
            match der_sequence_len(payload.subrange(certificate_start, payload.len() as int)) {
                None => None,
                Some(certificate_len) => {
                    let certificate_end = certificate_start + certificate_len;
                    if payload.len() < certificate_end {
                        None
                    } else {
                        Some(
                            RegistrationData {
                                public_key: payload.subrange(1, 1 + PUBLIC_KEY_LEN as int),
                                key_handle: payload.subrange(
                                    2 + PUBLIC_KEY_LEN as int,
                                    certificate_start,
                                ),
                                attestation_certificate: payload.subrange(
                                    certificate_start,
                                    certificate_end,
                                ),
                                signature: payload.subrange(certificate_end, payload.len() as int),
                            },
                        )
                    }
                },
            }
        }
    }
}

/// The data of a REGISTER command: the challenge parameter, then the application parameter.
pub open spec fn register_request_data(application: Seq<char>, challenge: Seq<char>) -> Seq<u8> {
    challenge_parameter(challenge) + application_parameter(application)
}

/// Builds the REGISTER command frame for a relying party and its challenge.
pub fn register_request(application: &str, challenge: &str) -> (frame: Vec<u8>)
    ensures
        frame@ == command_frame(
            INS_REGISTER,
            0,
            0,
            register_request_data(application@, challenge@),
        ),
{
    let mut data: Vec<u8> = challenge_hash(challenge);
    let id: Vec<u8> = application_id(application);
    append(&mut data, id.as_slice());
    encode(INS_REGISTER, 0, 0, data.as_slice())
}

/// Measures the DER sequence at the start of `bytes`.
///
/// Returns its length with the header, which may exceed what `bytes` holds.
pub fn measure_der_sequence(bytes: &[u8]) -> (len: Option<u64>)
    ensures
        match der_sequence_len(bytes@) {
            Some(n) => len == Some(n as u64) && n <= 6 + 0xFFFF_FFFF,
            None => len is None,
        },
{
    if bytes.len() < 2 || bytes[0] != DER_SEQUENCE_TAG {
        return None;
    }
    let first: u8 = bytes[1];
    if first < 0x80 {
        return Some(2 + first as u64);
    }
    let n: usize = (first - 0x80) as usize;
    if n == 0 || n > 4 || bytes.len() < 2 + n {
        return None;
    }
    let content: u32 = read_be(bytes, 2, 2 + n);
    proof {
        lemma_be_value_bound(bytes@.subrange(2, 2 + n));
    }
    Some(2 + n as u64 + content as u64)
}

/// Takes a registration response apart.
///
/// Succeeds exactly on the payloads that follow the layout: the reserved
/// byte, a full public key, a key handle of the announced length, a DER
/// sequence that fits in what is left. Everything else is malformed.
pub fn parse_register_response(payload: &[u8]) -> (r: Result<RegistrationResult, Error>)
    ensures
        match parsed_registration(payload@) {
            Some(data) => r is Ok && r->Ok_0@ == data && data.well_formed(),
            None => r == Err::<RegistrationResult, Error>(Error::MalformedResponse),
        },
{
    let len: usize = payload.len();
    if len < 2 + PUBLIC_KEY_LEN || payload[0] != REGISTER_RESERVED_BYTE {
        return Err(Error::MalformedResponse);
    }
    let key_handle_len: usize = payload[1 + PUBLIC_KEY_LEN] as usize;
    let certificate_start: usize = 2 + PUBLIC_KEY_LEN + key_handle_len;
    if len < certificate_start {
        return Err(Error::MalformedResponse);
    }
    let certificate_len: u64 = match measure_der_sequence(&payload[certificate_start..len]) {
        Some(n) => n,
        None => {
            return Err(Error::MalformedResponse);
        },
    };
    let available: u64 = (len - certificate_start) as u64;
    if available < certificate_len {
        return Err(Error::MalformedResponse);
    }
    let certificate_end: usize = certificate_start + certificate_len as usize;
    Ok(
        RegistrationResult {
            public_key: copy_range(payload, 1, 1 + PUBLIC_KEY_LEN),
            key_handle: copy_range(payload, 2 + PUBLIC_KEY_LEN, certificate_start),
            attestation_certificate: copy_range(payload, certificate_start, certificate_end),
            signature: copy_range(payload, certificate_end, len),
        },
    )
}

/// Parsing undoes the layout.
///
/// A well-formed registration whose certificate is one DER sequence, no more
/// and no less, is what its own layout parses to.
pub proof fn lemma_layout_parses_back(registration: RegistrationData)
    requires
        registration.well_formed(),
        der_sequence_len(registration.attestation_certificate) == Some(
            registration.attestation_certificate.len(),
        ),
    ensures
        parsed_registration(registration.layout()) == Some(registration),
{
    let payload = registration.layout();
    let certificate = registration.attestation_certificate;
    let start = 2 + PUBLIC_KEY_LEN + registration.key_handle.len();
    let rest = payload.subrange(start, payload.len() as int);
    assert(payload[1 + PUBLIC_KEY_LEN as int] == registration.key_handle.len());
    assert(rest == certificate + registration.signature);
    assert(rest[0] == certificate[0] && rest[1] == certificate[1]);
    if certificate[1] >= 0x80 {
        let n = certificate[1] - 0x80;
        assert(rest.subrange(2, 2 + n) == certificate.subrange(2, 2 + n));
    }
    assert(der_sequence_len(rest) == Some(certificate.len()));
    let parsed = parsed_registration(payload)->Some_0;
    assert(parsed.public_key == registration.public_key);
    assert(parsed.key_handle == registration.key_handle);
    assert(parsed.attestation_certificate == registration.attestation_certificate);
    assert(parsed.signature == registration.signature);
}

} // verus!
