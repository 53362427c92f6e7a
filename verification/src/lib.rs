//! FIDO U2F hardware-token engine: APDU framing, the REGISTER and
//! AUTHENTICATE message layouts, the polling state machine that waits for
//! user presence, HID report framing, and verification of the token's
//! attestation and assertion signatures.
//!
//! The library is stateless: every function works on the values it is given.
//! Talking to a physical device is left to the caller, which feeds the bytes
//! it read into the functions here.

pub mod apdu;
pub mod bytes;
pub mod error;
pub mod exchange;
pub mod hash;
pub mod hid;
pub mod register;
pub mod sign;
pub mod verify;
