//! ISO 7816-4 style command and response frames as U2F uses them.
//!
//! A command frame is the class byte, the instruction byte, two parameter
//! bytes, a three-byte extended length, the data, and a two-byte trailer that
//! asks for the longest response. A response frame is the payload followed by
//! a two-byte big-endian status word.

use vstd::prelude::*;
use crate::bytes::{append, copy_range};
use crate::error::Error;

verus! {

/// Class byte of every U2F command.
pub const CLA: u8 = 0x00;

/// Instruction byte of the REGISTER command.
pub const INS_REGISTER: u8 = 0x01;

/// Instruction byte of the AUTHENTICATE command.
pub const INS_AUTHENTICATE: u8 = 0x02;

/// Instruction byte of the VERSION command.
pub const INS_VERSION: u8 = 0x03;

/// Status word of a successful response.
pub const SW_NO_ERROR: u16 = 0x9000;

/// Status word that the token sends while it waits for the user's touch.
pub const SW_CONDITIONS_NOT_SATISFIED: u16 = 0x6985;

/// The most data bytes that the extended length field of a command can announce.
pub const MAX_DATA_LEN: usize = 0xFFFF;

/// Bytes that a command frame adds around its data.
pub const FRAME_OVERHEAD: usize = 9;

/// The command frame for `instruction`, its two parameters and `data`.
pub open spec fn command_frame(
    instruction: u8,
    first_parameter: u8,
    second_parameter: u8,
    data: Seq<u8>,
) -> Seq<u8> {
    seq![
        CLA,
        instruction,
        first_parameter,
        second_parameter,
        0u8,
        (data.len() / 256) as u8,
        (data.len() % 256) as u8,
    ] + data + seq![0u8, 0u8]
}

/// The status word that ends a response of at least two bytes.
pub open spec fn status_word(response: Seq<u8>) -> u16 {
    (response[response.len() - 2] as int * 256 + response[response.len() - 1] as int) as u16
}

/// What precedes the status word in a response of at least two bytes.
pub open spec fn payload(response: Seq<u8>) -> Seq<u8> {
    response.subrange(0, response.len() - 2)
}

/// A decoded response frame.
#[derive(Debug)]
pub struct Response {
    /// The status word, `SW_NO_ERROR` on success.
    pub status: u16,
    /// The bytes that precede the status word.
    pub payload: Vec<u8>,
}

/// Encodes a command frame.
///
/// The length field has room for sixteen bits, so `data` holds at most
/// `MAX_DATA_LEN` bytes.
pub fn encode(
    instruction: u8,
    first_parameter: u8,
    second_parameter: u8,
    data: &[u8],
) -> (frame: Vec<u8>)
    requires
        data@.len() <= MAX_DATA_LEN,
    ensures
        frame@ == command_frame(instruction, first_parameter, second_parameter, data@),
        frame@.len() == data@.len() + FRAME_OVERHEAD,
{
    let len: usize = data.len();
    let mut frame: Vec<u8> = Vec::new();
    frame.push(CLA);
    frame.push(instruction);
    frame.push(first_parameter);
    frame.push(second_parameter);
    frame.push(0u8);
    frame.push((len / 256) as u8);
    frame.push((len % 256) as u8);
    append(&mut frame, data);
    frame.push(0u8);
    frame.push(0u8);
    frame
}

/// Decodes a response frame into its status word and payload.
///
/// A response shorter than the two bytes of the status word is malformed.
pub fn decode(response: &[u8]) -> (r: Result<Response, Error>)
    ensures
        response@.len() < 2 ==> r == Err::<Response, Error>(Error::MalformedResponse),
        response@.len() >= 2 ==> r is Ok && r->Ok_0.status == status_word(response@)
            && r->Ok_0.payload@ == payload(response@),
{
    let len: usize = response.len();
    if len < 2 {
        return Err(Error::MalformedResponse);
    }
    let high: u16 = response[len - 2] as u16;
    let low: u16 = response[len - 1] as u16;
    let body: Vec<u8> = copy_range(response, 0, len - 2);
    Ok(Response { status: high * 256 + low, payload: body })
}

} // verus!
