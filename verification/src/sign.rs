//! The AUTHENTICATE exchange: the command that asks a token to sign with a
//! credential it issued, and the positional layout of its answer.
//!
//! The answer is the user-presence flag, the token's counter as four
//! big-endian bytes, and the signature, which takes all that is left.

use vstd::prelude::*;
use crate::apdu::{command_frame, encode, INS_AUTHENTICATE};
use crate::bytes::{
    append,
    be_u32,
    be_value,
    copy_range,
    lemma_be_u32_value,
    lemma_be_value_bound,
    read_be,
};
use crate::error::Error;
use crate::hash::{application_id, application_parameter, challenge_hash, challenge_parameter};
use crate::register::MAX_KEY_HANDLE_LEN;

verus! {

/// Control byte of AUTHENTICATE that asks the token to enforce user presence and sign.
pub const ENFORCE_USER_PRESENCE_AND_SIGN: u8 = 0x03;

/// Bytes of a sign response that precede the signature: the flag and the counter.
pub const SIGN_HEADER_LEN: usize = 5;

/// A sign response, taken apart.
#[derive(Debug)]
pub struct SignResult {
    /// The user-presence flag as the token sent it.
    pub user_presence: u8,
    /// The token's signature counter.
    pub counter: u32,
    /// The DER signature of the credential's key over the assertion.
    pub signature: Vec<u8>,
}

/// What a `SignResult` holds, with the signature as a plain byte string.
pub struct SignData {
    pub user_presence: u8,
    pub counter: u32,
    pub signature: Seq<u8>,
}

impl View for SignResult {
    type V = SignData;

    open spec fn view(&self) -> SignData {
        SignData {
            user_presence: self.user_presence,
            counter: self.counter,
            signature: self.signature@,
        }
    }
}

impl SignData {
    /// The response payload that spells this assertion.
    pub open spec fn layout(self) -> Seq<u8> {
        seq![self.user_presence] + be_u32(self.counter) + self.signature
    }
}

/// The counter that a sign response of at least five bytes carries.
pub open spec fn encoded_counter(payload: Seq<u8>) -> nat {
    be_value(payload.subrange(1, SIGN_HEADER_LEN as int))
}

/// The assertion that `payload` spells, or `None` where it is too short for the layout.
pub open spec fn parsed_assertion(payload: Seq<u8>) -> Option<SignData> {
    if payload.len() < SIGN_HEADER_LEN {
        None
    } else {
        Some(
            SignData {
                user_presence: payload[0],
                counter: encoded_counter(payload) as u32,
                signature: payload.subrange(SIGN_HEADER_LEN as int, payload.len() as int),
            },
        )
    }
}

/// The data of an AUTHENTICATE command: the challenge parameter, the
/// application parameter, the key handle's length in one byte, the key handle.
pub open spec fn sign_request_data(
    application: Seq<char>,
    challenge: Seq<char>,
    key_handle: Seq<u8>,
) -> Seq<u8> {
    challenge_parameter(challenge) + application_parameter(application) + seq![
        key_handle.len() as u8,
    ] + key_handle
}

/// Builds the AUTHENTICATE command frame for a credential.
///
/// A key handle longer than the one byte of its length field can announce
/// was never issued by a registration; it is reported as malformed, and
/// every other key handle gets its frame.
pub fn sign_request(application: &str, challenge: &str, key_handle: &[u8]) -> (r: Result<
    Vec<u8>,
    Error,
>)
    ensures
        key_handle@.len() > MAX_KEY_HANDLE_LEN ==> r == Err::<Vec<u8>, Error>(
            Error::MalformedResponse,
        ),
        key_handle@.len() <= MAX_KEY_HANDLE_LEN ==> r is Ok && r->Ok_0@ == command_frame(
            INS_AUTHENTICATE,
            ENFORCE_USER_PRESENCE_AND_SIGN,
            0,
            sign_request_data(application@, challenge@, key_handle@),
        ),
{
    if key_handle.len() > MAX_KEY_HANDLE_LEN {
        return Err(Error::MalformedResponse);
    }
    let mut data: Vec<u8> = challenge_hash(challenge);
    let id: Vec<u8> = application_id(application);
    append(&mut data, id.as_slice());
    data.push(key_handle.len() as u8);
    append(&mut data, key_handle);
    Ok(encode(INS_AUTHENTICATE, ENFORCE_USER_PRESENCE_AND_SIGN, 0, data.as_slice()))
}

/// Takes a sign response apart.
///
/// Succeeds exactly on the payloads that hold the flag and the four counter
/// bytes; the signature is whatever follows them.
pub fn parse_sign_response(payload: &[u8]) -> (r: Result<SignResult, Error>)
    ensures
        match parsed_assertion(payload@) {
            Some(data) => r is Ok && r->Ok_0@ == data && data.counter == encoded_counter(
                payload@,
            ),
            None => r == Err::<SignResult, Error>(Error::MalformedResponse),
        },
{
    let len: usize = payload.len();
    if len < SIGN_HEADER_LEN {
        return Err(Error::MalformedResponse);
    }
    proof {
        lemma_be_value_bound(payload@.subrange(1, SIGN_HEADER_LEN as int));
    }
    Ok(
        SignResult {
            user_presence: payload[0],
            counter: read_be(payload, 1, SIGN_HEADER_LEN),
            signature: copy_range(payload, SIGN_HEADER_LEN, len),
        },
    )
}

/// Parsing undoes the layout: an assertion is what its own layout parses to.
pub proof fn lemma_layout_parses_back(assertion: SignData)
    ensures
        parsed_assertion(assertion.layout()) == Some(assertion),
{
    let payload = assertion.layout();
    lemma_be_u32_value(assertion.counter);
    assert(payload.subrange(1, SIGN_HEADER_LEN as int) == be_u32(assertion.counter));
    let parsed = parsed_assertion(payload)->Some_0;
    assert(parsed.signature == assertion.signature);
}

} // verus!
