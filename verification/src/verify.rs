//! Offline verification of what a token signed.
//!
//! A registration is signed by the token's attestation key, whose
//! certificate travels with the response; an assertion is signed by the
//! credential's own key, which the caller kept from registration. Both
//! signatures are ECDSA over P-256 with SHA-256. Only the signature is
//! checked: no chain of trust is built for the certificate.

use p256::ecdsa::signature::Verifier;
use p256::ecdsa::{Signature, VerifyingKey};
use vstd::prelude::*;
use x509_cert::der::Decode;
use x509_cert::Certificate;
use crate::bytes::{
    append,
    append_be_u32,
    be_u32,
    copy_range,
    lemma_be_u32_value,
    lemma_be_value_bound,
};
use crate::error::Error;
use crate::hash::{
    application_id,
    application_parameter,
    challenge_hash,
    challenge_parameter,
    DIGEST_LEN,
};
use crate::register::{
    parsed_registration,
    RegistrationData,
    RegistrationResult,
    MAX_KEY_HANDLE_LEN,
    PUBLIC_KEY_LEN,
};
use crate::sign::{encoded_counter, parsed_assertion, SignData, SignResult, SIGN_HEADER_LEN};

verus! {

/// The subject's public key in the certificate that `certificate` encodes in
/// DER, as the `x509-cert` crate reads it; `None` where that crate does not
/// accept the bytes as one certificate.
pub uninterp spec fn certificate_public_key(certificate: Seq<u8>) -> Option<Seq<u8>>;

/// Whether `signature`, in DER, is a valid ECDSA signature over the SHA-256
/// digest of `message` for the SEC1-encoded P-256 point `public_key`, as the
/// `p256` crate decides it. False where the key or the signature does not
/// decode.
pub uninterp spec fn ecdsa_accepts(public_key: Seq<u8>, message: Seq<u8>, signature: Seq<u8>) -> bool;

/// Calls `x509_cert::Certificate::from_der` and hands out the raw bytes of the
/// bit string in the subject public key info.
///
/// Trusted: the outcome depends on the certificate's bytes alone. Nothing is
/// claimed about which certificates decode.
#[verifier::external_body]
pub(crate) fn attestation_key(certificate: &[u8]) -> (key: Option<Vec<u8>>)
    ensures
        match key {
            Some(bytes) => certificate_public_key(certificate@) == Some(bytes@),
            None => certificate_public_key(certificate@) is None,
        },
{
    match Certificate::from_der(certificate) {
        Ok(parsed) => Some(
            parsed.tbs_certificate.subject_public_key_info.subject_public_key.raw_bytes().to_vec(),
        ),
        Err(_) => None,
    }
}

/// Calls `p256::ecdsa::VerifyingKey::verify` on `message`, with the key from
/// `VerifyingKey::from_sec1_bytes` and the signature from
/// `Signature::from_der`.
///
/// Trusted: the outcome depends on the three byte strings alone. Nothing is
/// claimed about which signatures are accepted.
#[verifier::external_body]
pub(crate) fn ecdsa_verify(public_key: &[u8], message: &[u8], signature: &[u8]) -> (accepted: bool)
    ensures
        accepted == ecdsa_accepts(public_key@, message@, signature@),
{
    match (VerifyingKey::from_sec1_bytes(public_key), Signature::from_der(signature)) {
        (Ok(key), Ok(decoded)) => key.verify(message, &decoded).is_ok(),
        _ => false,
    }
}

/// The bytes that a token signs at registration: a zero byte, the application
/// parameter, the challenge parameter, the key handle, the public key.
pub open spec fn registration_message(
    application_parameter: Seq<u8>,
    challenge_parameter: Seq<u8>,
    key_handle: Seq<u8>,
    public_key: Seq<u8>,
) -> Seq<u8> {
    seq![0u8] + application_parameter + challenge_parameter + key_handle + public_key
}

/// The bytes that a token signs at authentication: the application parameter,
/// the user-presence flag, the counter in four big-endian bytes, the challenge
/// parameter.
pub open spec fn assertion_message(
    application_parameter: Seq<u8>,
    user_presence: u8,
    counter: u32,
    challenge_parameter: Seq<u8>,
) -> Seq<u8> {
    application_parameter + seq![user_presence] + be_u32(counter) + challenge_parameter
}

/// What verification of a registration returns, given what the certificate
/// yielded and whether the signature was accepted.
pub open spec fn registration_verdict(
    registration: RegistrationData,
    certificate_decoded: bool,
    signature_accepted: bool,
) -> Result<Seq<u8>, Error> {
    if !registration.well_formed() {
        Err(Error::MalformedResponse)
    } else if !certificate_decoded {
        Err(Error::InvalidCertificate)
    } else if !signature_accepted {
        Err(Error::InvalidSignature)
    } else {
        Ok(registration.public_key)
    }
}

/// What verification of an assertion returns, given whether the signature was accepted.
pub open spec fn assertion_verdict(assertion: SignData, signature_accepted: bool) -> Result<
    u32,
    Error,
> {
    if signature_accepted {
        Ok(assertion.counter)
    } else {
        Err(Error::InvalidSignature)
    }
}

/// Whether the attestation key in the registration's certificate accepts the
/// registration's signature over the message that the token had to sign.
pub open spec fn attestation_accepted(
    application: Seq<char>,
    challenge: Seq<char>,
    registration: RegistrationData,
) -> bool {
    match certificate_public_key(registration.attestation_certificate) {
        Some(key) => ecdsa_accepts(
            key,
            registration_message(
                application_parameter(application),
                challenge_parameter(challenge),
                registration.key_handle,
                registration.public_key,
            ),
            registration.signature,
        ),
        None => false,
    }
}

/// The outcome of verifying `registration` for a relying party and its challenge.
pub open spec fn verified_registration(
    application: Seq<char>,
    challenge: Seq<char>,
    registration: RegistrationData,
) -> Result<Seq<u8>, Error> {
    registration_verdict(
        registration,
        certificate_public_key(registration.attestation_certificate) is Some,
        attestation_accepted(application, challenge, registration),
    )
}

/// Whether `public_key` accepts the assertion's signature over the message
/// that the token had to sign.
pub open spec fn assertion_accepted(
    application: Seq<char>,
    challenge: Seq<char>,
    assertion: SignData,
    public_key: Seq<u8>,
) -> bool {
    ecdsa_accepts(
        public_key,
        assertion_message(
            application_parameter(application),
            assertion.user_presence,
            assertion.counter,
            challenge_parameter(challenge),
        ),
        assertion.signature,
    )
}

/// The outcome of verifying `assertion` with the credential's public key.
pub open spec fn verified_assertion(
    application: Seq<char>,
    challenge: Seq<char>,
    assertion: SignData,
    public_key: Seq<u8>,
) -> Result<u32, Error> {
    assertion_verdict(assertion, assertion_accepted(application, challenge, assertion, public_key))
}

/// Builds the bytes that a token signs at registration.
pub fn registration_signed_data(
    application_parameter: &[u8],
    challenge_parameter: &[u8],
    key_handle: &[u8],
    public_key: &[u8],
) -> (message: Vec<u8>)
    ensures
        message@ == registration_message(
            application_parameter@,
            challenge_parameter@,
            key_handle@,
            public_key@,
        ),
{
    let mut message: Vec<u8> = Vec::new();
    message.push(0u8);
    append(&mut message, application_parameter);
    append(&mut message, challenge_parameter);
    append(&mut message, key_handle);
    append(&mut message, public_key);
    message
}

/// Builds the bytes that a token signs at authentication.
pub fn assertion_signed_data(
    application_parameter: &[u8],
    user_presence: u8,
    counter: u32,
    challenge_parameter: &[u8],
) -> (message: Vec<u8>)
    ensures
        message@ == assertion_message(
            application_parameter@,
            user_presence,
            counter,
            challenge_parameter@,
        ),
{
    let mut message: Vec<u8> = Vec::new();
    append(&mut message, application_parameter);
    message.push(user_presence);
    append_be_u32(&mut message, counter);
    append(&mut message, challenge_parameter);
    message
}

/// Decides a registration from the outcome of the two cryptographic steps.
///
/// A registration whose public key or key handle has an impossible length is
/// malformed whatever the steps said; then an undecodable certificate, then a
/// rejected signature fail it. Otherwise the registration's public key is
/// handed out for the caller to keep.
pub fn conclude_registration(
    registration: &RegistrationResult,
    certificate_decoded: bool,
    signature_accepted: bool,
) -> (r: Result<Vec<u8>, Error>)
    ensures
        match registration_verdict(registration@, certificate_decoded, signature_accepted) {
            Ok(key) => r is Ok && r->Ok_0@ == key,
            Err(e) => r == Err::<Vec<u8>, Error>(e),
        },
{
    if registration.public_key.len() != PUBLIC_KEY_LEN || registration.key_handle.len()
        > MAX_KEY_HANDLE_LEN {
        Err(Error::MalformedResponse)
    } else if !certificate_decoded {
        Err(Error::InvalidCertificate)
    } else if !signature_accepted {
        Err(Error::InvalidSignature)
    } else {
        Ok(copy_range(registration.public_key.as_slice(), 0, PUBLIC_KEY_LEN))
    }
}

/// Decides an assertion from the outcome of the signature check: the counter
/// where the signature was accepted, a failure otherwise.
pub fn conclude_assertion(assertion: &SignResult, signature_accepted: bool) -> (r: Result<
    u32,
    Error,
>)
    ensures
        r == assertion_verdict(assertion@, signature_accepted),
{
    if signature_accepted {
        Ok(assertion.counter)
    } else {
        Err(Error::InvalidSignature)
    }
}

/// Verifies a registration for a relying party and its challenge.
///
/// Rebuilds the bytes that the token had to sign, takes the attestation key
/// out of the certificate, and checks the signature with it. On success the
/// registration's public key is returned.
pub fn verify_registration(
    application: &str,
    challenge: &str,
    registration: &RegistrationResult,
) -> (r: Result<Vec<u8>, Error>)
    ensures
        match verified_registration(application@, challenge@, registration@) {
            Ok(key) => r is Ok && r->Ok_0@ == key,
            Err(e) => r == Err::<Vec<u8>, Error>(e),
        },
{
    let key: Option<Vec<u8>> = attestation_key(registration.attestation_certificate.as_slice());
    let accepted: bool = match &key {
        Some(bytes) => {
            let id: Vec<u8> = application_id(application);
            let hash: Vec<u8> = challenge_hash(challenge);
            let message: Vec<u8> = registration_signed_data(
                id.as_slice(),
                hash.as_slice(),
                registration.key_handle.as_slice(),
                registration.public_key.as_slice(),
            );
            ecdsa_verify(bytes.as_slice(), message.as_slice(), registration.signature.as_slice())
        },
        None => false,
    };
    conclude_registration(registration, key.is_some(), accepted)
}

/// Verifies an assertion with the public key that registration returned.
///
/// Rebuilds the bytes that the token had to sign and checks the signature. On
/// success the token's counter is returned; it is for the caller to reject a
/// counter that did not grow. The key handle names the credential for the
/// caller and is not part of what was signed.
pub fn verify_signature(
    application: &str,
    challenge: &str,
    sign_result: &SignResult,
    key_handle: &[u8],
    public_key: &[u8],
) -> (r: Result<u32, Error>)
    ensures
        r == verified_assertion(application@, challenge@, sign_result@, public_key@),
{
    let id: Vec<u8> = application_id(application);
    let hash: Vec<u8> = challenge_hash(challenge);
    let message: Vec<u8> = assertion_signed_data(
        id.as_slice(),
        sign_result.user_presence,
        sign_result.counter,
        hash.as_slice(),
    );
    let accepted: bool = ecdsa_verify(public_key, message.as_slice(), sign_result.signature.as_slice());
    conclude_assertion(sign_result, accepted)
}

/// The signed bytes of a registration determine each of their parts.
///
/// Two registrations over parameters of digest length and public keys of
/// their fixed length that are signed as the same bytes agree in the
/// application parameter, the challenge parameter, the key handle and the
/// public key. So a signature over one registration says nothing of another.
pub proof fn lemma_registration_message_binds(
    application_1: Seq<u8>,
    challenge_1: Seq<u8>,
    key_handle_1: Seq<u8>,
    public_key_1: Seq<u8>,
    application_2: Seq<u8>,
    challenge_2: Seq<u8>,
    key_handle_2: Seq<u8>,
    public_key_2: Seq<u8>,
)
    requires
        application_1.len() == DIGEST_LEN,
        application_2.len() == DIGEST_LEN,
        challenge_1.len() == DIGEST_LEN,
        challenge_2.len() == DIGEST_LEN,
        public_key_1.len() == PUBLIC_KEY_LEN,
        public_key_2.len() == PUBLIC_KEY_LEN,
        registration_message(application_1, challenge_1, key_handle_1, public_key_1)
            == registration_message(application_2, challenge_2, key_handle_2, public_key_2),
    ensures
        application_1 == application_2,
        challenge_1 == challenge_2,
        key_handle_1 == key_handle_2,
        public_key_1 == public_key_2,
{
    let m1 = registration_message(application_1, challenge_1, key_handle_1, public_key_1);
    let m2 = registration_message(application_2, challenge_2, key_handle_2, public_key_2);
    let n = key_handle_1.len() as int;
    assert(m1.len() == 1 + 2 * DIGEST_LEN + key_handle_1.len() + PUBLIC_KEY_LEN);
    assert(m2.len() == 1 + 2 * DIGEST_LEN + key_handle_2.len() + PUBLIC_KEY_LEN);
    assert(key_handle_2.len() == n);
    assert(application_1 == m1.subrange(1, 1 + DIGEST_LEN));
    assert(application_2 == m2.subrange(1, 1 + DIGEST_LEN));
    assert(challenge_1 == m1.subrange(1 + DIGEST_LEN, 1 + 2 * DIGEST_LEN));
    assert(challenge_2 == m2.subrange(1 + DIGEST_LEN, 1 + 2 * DIGEST_LEN));
    assert(key_handle_1 == m1.subrange(1 + 2 * DIGEST_LEN, 1 + 2 * DIGEST_LEN + n));
    assert(key_handle_2 == m2.subrange(1 + 2 * DIGEST_LEN, 1 + 2 * DIGEST_LEN + n));
    assert(public_key_1 == m1.subrange(1 + 2 * DIGEST_LEN + n, m1.len() as int));
    assert(public_key_2 == m2.subrange(1 + 2 * DIGEST_LEN + n, m2.len() as int));
}

/// The signed bytes of an assertion determine each of their parts.
///
/// Two assertions over parameters of digest length that are signed as the
/// same bytes agree in both parameters, the user-presence flag and the
/// counter.
pub proof fn lemma_assertion_message_binds(
    application_1: Seq<u8>,
    user_presence_1: u8,
    counter_1: u32,
    challenge_1: Seq<u8>,
    application_2: Seq<u8>,
    user_presence_2: u8,
    counter_2: u32,
    challenge_2: Seq<u8>,
)
    requires
        application_1.len() == DIGEST_LEN,
        application_2.len() == DIGEST_LEN,
        assertion_message(application_1, user_presence_1, counter_1, challenge_1)
            == assertion_message(application_2, user_presence_2, counter_2, challenge_2),
    ensures
        application_1 == application_2,
        user_presence_1 == user_presence_2,
        counter_1 == counter_2,
        challenge_1 == challenge_2,
{
    let m1 = assertion_message(application_1, user_presence_1, counter_1, challenge_1);
    let m2 = assertion_message(application_2, user_presence_2, counter_2, challenge_2);
    lemma_be_u32_value(counter_1);
    lemma_be_u32_value(counter_2);
    assert(m1.len() == DIGEST_LEN + 5 + challenge_1.len());
    assert(m2.len() == DIGEST_LEN + 5 + challenge_2.len());
    assert(application_1 == m1.subrange(0, DIGEST_LEN as int));
    assert(application_2 == m2.subrange(0, DIGEST_LEN as int));
    assert(user_presence_1 == m1[DIGEST_LEN as int]);
    assert(user_presence_2 == m2[DIGEST_LEN as int]);
    assert(be_u32(counter_1) == m1.subrange(DIGEST_LEN + 1, DIGEST_LEN + 5));
    assert(be_u32(counter_2) == m2.subrange(DIGEST_LEN + 1, DIGEST_LEN + 5));
    assert(challenge_1 == m1.subrange(DIGEST_LEN + 5, m1.len() as int));
    assert(challenge_2 == m2.subrange(DIGEST_LEN + 5, m2.len() as int));
}

/// Verification of a registration fails closed.
///
/// It succeeds exactly where the registration is well formed, its
/// certificate decodes, and the certificate's key accepts the signature over
/// the registration's own message; it then returns the registration's public
/// key. In every other case it returns one of its three failures, and which
/// one is fixed by the first step that failed.
pub proof fn lemma_registration_fails_closed(
    application: Seq<char>,
    challenge: Seq<char>,
    registration: RegistrationData,
)
    ensures
        verified_registration(application, challenge, registration) is Ok <==> (
        registration.well_formed() && attestation_accepted(application, challenge, registration)),
        verified_registration(application, challenge, registration) is Ok
            ==> verified_registration(application, challenge, registration) == Ok::<
            Seq<u8>,
            Error,
        >(registration.public_key),
        !registration.well_formed() ==> verified_registration(application, challenge, registration)
            == Err::<Seq<u8>, Error>(Error::MalformedResponse),
        registration.well_formed() && certificate_public_key(registration.attestation_certificate)
            is None ==> verified_registration(application, challenge, registration) == Err::<
            Seq<u8>,
            Error,
        >(Error::InvalidCertificate),
        registration.well_formed() && certificate_public_key(registration.attestation_certificate)
            is Some && !attestation_accepted(application, challenge, registration)
            ==> verified_registration(application, challenge, registration) == Err::<
            Seq<u8>,
            Error,
        >(Error::InvalidSignature),
{
}

/// A registration response from a token that signs correctly verifies, and
/// the key returned is the one embedded in the response.
///
/// For every payload that parses, if the attestation key in its certificate
/// accepts its signature for this relying party and challenge, verification
/// returns the 65 bytes that follow the reserved byte of the payload.
pub proof fn lemma_register_then_verify(
    application: Seq<char>,
    challenge: Seq<char>,
    payload: Seq<u8>,
)
    requires
        parsed_registration(payload) is Some,
        attestation_accepted(application, challenge, parsed_registration(payload)->Some_0),
    ensures
        verified_registration(application, challenge, parsed_registration(payload)->Some_0) == Ok::<
            Seq<u8>,
            Error,
        >(payload.subrange(1, 1 + PUBLIC_KEY_LEN)),
{
}

/// A sign response verifies to the counter that it encodes, or not at all.
///
/// For every payload that parses: where the public key accepts the signature
/// for this relying party and challenge, verification returns the number
/// that bytes 1 to 4 of the payload spell in big-endian order; where it does
/// not, verification fails with an invalid signature.
pub proof fn lemma_sign_then_verify(
    application: Seq<char>,
    challenge: Seq<char>,
    payload: Seq<u8>,
    public_key: Seq<u8>,
)
    requires
        parsed_assertion(payload) is Some,
    ensures
        encoded_counter(payload) <= u32::MAX,
        assertion_accepted(application, challenge, parsed_assertion(payload)->Some_0, public_key)
            ==> verified_assertion(
            application,
            challenge,
            parsed_assertion(payload)->Some_0,
            public_key,
        ) == Ok::<u32, Error>(encoded_counter(payload) as u32),
        !assertion_accepted(application, challenge, parsed_assertion(payload)->Some_0, public_key)
            ==> verified_assertion(
            application,
            challenge,
            parsed_assertion(payload)->Some_0,
            public_key,
        ) == Err::<u32, Error>(Error::InvalidSignature),
{
    lemma_be_value_bound(payload.subrange(1, SIGN_HEADER_LEN as int));
}

/// Verified counters keep the order of the token's counters.
///
/// Of two sign responses that both verify, the one that encodes the larger
/// counter verifies to the larger counter.
pub proof fn lemma_counters_keep_order(
    application: Seq<char>,
    challenge_1: Seq<char>,
    payload_1: Seq<u8>,
    challenge_2: Seq<char>,
    payload_2: Seq<u8>,
    public_key: Seq<u8>,
)
    requires
        parsed_assertion(payload_1) is Some,
        parsed_assertion(payload_2) is Some,
        verified_assertion(application, challenge_1, parsed_assertion(payload_1)->Some_0, public_key)
            is Ok,
        verified_assertion(application, challenge_2, parsed_assertion(payload_2)->Some_0, public_key)
            is Ok,
        encoded_counter(payload_1) < encoded_counter(payload_2),
    ensures
        verified_assertion(
            application,
            challenge_1,
            parsed_assertion(payload_1)->Some_0,
            public_key,
        )->Ok_0 < verified_assertion(
            application,
            challenge_2,
            parsed_assertion(payload_2)->Some_0,
            public_key,
        )->Ok_0,
{
    lemma_sign_then_verify(application, challenge_1, payload_1, public_key);
    lemma_sign_then_verify(application, challenge_2, payload_2, public_key);
}

} // verus!
