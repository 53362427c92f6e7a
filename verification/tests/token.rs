use p256::ecdsa::signature::Signer;
use p256::ecdsa::{Signature, SigningKey};
use u2f_authenticator::apdu::{decode, INS_AUTHENTICATE, INS_REGISTER};
use u2f_authenticator::error::Error;
use u2f_authenticator::exchange::{reply, start, step, Action, Event, ExchangeState};
use u2f_authenticator::hash::{application_id, challenge_hash};
use u2f_authenticator::hid::{frame_message, Assembler, CMD_MSG};
use u2f_authenticator::register::{
    parse_register_response, register_request, RegistrationResult,
};
use u2f_authenticator::sign::{parse_sign_response, sign_request, SignResult};
use u2f_authenticator::verify::{
    assertion_signed_data, conclude_assertion, conclude_registration, registration_signed_data,
    verify_registration, verify_signature,
};

const APPLICATION: &str = "https://example.com";
const CHALLENGE: &str = "abc123";

fn tlv(tag: u8, content: &[u8]) -> Vec<u8> {
    let mut out = vec![tag];
    let len = content.len();
    if len < 0x80 {
        out.push(len as u8);
    } else if len < 0x100 {
        out.extend([0x81, len as u8]);
    } else {
        out.extend([0x82, (len >> 8) as u8, len as u8]);
    }
    out.extend_from_slice(content);
    out
}

fn concat(parts: &[Vec<u8>]) -> Vec<u8> {
    parts.iter().flat_map(|part| part.iter().copied()).collect()
}

fn bit_string(bytes: &[u8]) -> Vec<u8> {
    let mut content = vec![0x00];
    content.extend_from_slice(bytes);
    tlv(0x03, &content)
}

fn signing_key(seed: u8) -> SigningKey {
    SigningKey::from_slice(&[seed; 32]).unwrap()
}

fn public_point(key: &SigningKey) -> Vec<u8> {
    key.verifying_key().to_encoded_point(false).as_bytes().to_vec()
}

fn sign_der(key: &SigningKey, message: &[u8]) -> Vec<u8> {
    let signature: Signature = key.sign(message);
    signature.to_der().as_bytes().to_vec()
}

fn certificate_for(attestation: &SigningKey) -> Vec<u8> {
    let ecdsa_with_sha256 = tlv(0x30, &[0x06, 0x08, 0x2A, 0x86, 0x48, 0xCE, 0x3D, 0x04, 0x03, 0x02]);
    let name = tlv(
        0x30,
        &tlv(
            0x31,
            &tlv(0x30, &concat(&[vec![0x06, 0x03, 0x55, 0x04, 0x03], tlv(0x0C, b"Soft Token")])),
        ),
    );
    let validity = tlv(
        0x30,
        &concat(&[tlv(0x17, b"240101000000Z"), tlv(0x17, b"340101000000Z")]),
    );
    let key_algorithm = tlv(
        0x30,
        &[
            0x06, 0x07, 0x2A, 0x86, 0x48, 0xCE, 0x3D, 0x02, 0x01, 0x06, 0x08, 0x2A, 0x86, 0x48,
            0xCE, 0x3D, 0x03, 0x01, 0x07,
        ],
    );
    let key_info = tlv(0x30, &concat(&[key_algorithm, bit_string(&public_point(attestation))]));
    let to_be_signed = tlv(
        0x30,
        &concat(&[
            tlv(0xA0, &[0x02, 0x01, 0x02]),
            vec![0x02, 0x01, 0x01],
            ecdsa_with_sha256.clone(),
            name.clone(),
            validity,
            name,
            key_info,
        ]),
    );
    let signature = sign_der(attestation, &to_be_signed);
    tlv(0x30, &concat(&[to_be_signed, ecdsa_with_sha256, bit_string(&signature)]))
}

struct SoftToken {
    attestation: SigningKey,
    credential: SigningKey,
    key_handle: Vec<u8>,
    counter: u32,
    touches_needed: u32,
}

impl SoftToken {
    fn new() -> SoftToken {
        SoftToken {
            attestation: signing_key(0x11),
            credential: signing_key(0x22),
            key_handle: (0..64).map(|i| 0x80 + i as u8).collect(),
            counter: 41,
            touches_needed: 0,
        }
    }

    fn register_payload(&self, challenge: &[u8], application: &[u8]) -> Vec<u8> {
        let public_key = public_point(&self.credential);
        let message = concat(&[
            vec![0x00],
            application.to_vec(),
            challenge.to_vec(),
            self.key_handle.clone(),
            public_key.clone(),
        ]);
        concat(&[
            vec![0x05],
            public_key,
            vec![self.key_handle.len() as u8],
            self.key_handle.clone(),
            certificate_for(&self.attestation),
            sign_der(&self.attestation, &message),
        ])
    }

    fn sign_payload(&mut self, challenge: &[u8], application: &[u8]) -> Vec<u8> {
        self.counter += 1;
        let counter = self.counter.to_be_bytes().to_vec();
        let message = concat(&[application.to_vec(), vec![0x01], counter.clone(), challenge.to_vec()]);
        concat(&[vec![0x01], counter, sign_der(&self.credential, &message)])
    }

    fn answer(&mut self, frame: &[u8]) -> Vec<u8> {
        assert_eq!(frame[0], 0x00);
        assert_eq!(frame[4], 0x00);
        let len = (frame[5] as usize) << 8 | frame[6] as usize;
        assert_eq!(frame.len(), len + 9);
        let data = &frame[7..7 + len];
        if self.touches_needed > 0 {
            self.touches_needed -= 1;
            return vec![0x69, 0x85];
        }
        let mut payload = match frame[1] {
            INS_REGISTER => {
                assert_eq!(len, 64);
                self.register_payload(&data[..32], &data[32..64])
            }
            INS_AUTHENTICATE => {
                assert_eq!(frame[2], 0x03);
                assert_eq!(data[64] as usize, len - 65);
                if data[65..] != self.key_handle[..] {
                    return vec![0x6A, 0x80];
                }
                self.sign_payload(&data[..32], &data[32..64])
            }
            _ => return vec![0x6D, 0x00],
        };
        payload.extend([0x90, 0x00]);
        payload
    }

    fn answer_over_hid(&mut self, channel: u32, reports: &[Vec<u8>]) -> Vec<Vec<u8>> {
        let mut assembler = Assembler::new(channel);
        for report in reports {
            assembler = assembler.push(report).unwrap();
        }
        let (command, frame) = assembler.into_message().unwrap();
        assert_eq!(command, CMD_MSG);
        let response = self.answer(&frame);
        frame_message(channel, CMD_MSG, &response).unwrap()
    }
}

fn exchange(token: &mut SoftToken, frame: &[u8], timeout_ms: u64) -> Result<Vec<u8>, Error> {
    let channel = 0x00C0_FFEE;
    let (mut state, mut action) = start();
    let mut elapsed_ms: u64 = 0;
    loop {
        match action {
            Action::Stop => return state.outcome().unwrap(),
            Action::Send { delay_ms } => elapsed_ms += delay_ms,
        }
        let sent = frame_message(channel, CMD_MSG, frame).unwrap();
        let received = token.answer_over_hid(channel, &sent);
        let mut assembler = Assembler::new(channel);
        for report in &received {
            assembler = assembler.push(report).unwrap();
        }
        assert!(assembler.is_complete());
        let (command, message) = assembler.into_message().unwrap();
        let event: Event = reply(command, message, elapsed_ms);
        let (next, then) = step(state, event, timeout_ms);
        state = next;
        action = then;
    }
}

fn register(
    token: &mut SoftToken,
    application: &str,
    timeout_ms: u64,
    challenge: &str,
) -> Result<RegistrationResult, Error> {
    let frame = register_request(application, challenge);
    let payload = exchange(token, &frame, timeout_ms)?;
    parse_register_response(&payload)
}

fn sign(
    token: &mut SoftToken,
    application: &str,
    timeout_ms: u64,
    challenge: &str,
    key_handle: &[u8],
) -> Result<SignResult, Error> {
    let frame = sign_request(application, challenge, key_handle).unwrap();
    let payload = exchange(token, &frame, timeout_ms)?;
    parse_sign_response(&payload)
}

fn copy_of(registration: &RegistrationResult) -> RegistrationResult {
    RegistrationResult {
        public_key: registration.public_key.clone(),
        key_handle: registration.key_handle.clone(),
        attestation_certificate: registration.attestation_certificate.clone(),
        signature: registration.signature.clone(),
    }
}

#[test]
fn register_then_verify_returns_the_embedded_public_key() {
    let mut token = SoftToken::new();
    let registration = register(&mut token, APPLICATION, 5000, CHALLENGE).unwrap();
    assert_eq!(registration.public_key.len(), 65);
    assert_eq!(registration.public_key[0], 0x04);
    assert_eq!(registration.key_handle, token.key_handle);
    let key = verify_registration(APPLICATION, CHALLENGE, &registration).unwrap();
    assert_eq!(key, registration.public_key);
    assert_eq!(key, public_point(&token.credential));
}

#[test]
fn register_verifies_for_other_applications_and_challenges() {
    for (application, challenge) in
        [("", ""), ("https://login.example.org", "Xy_-9"), ("caf\u{e9}", "\u{1F511}")]
    {
        let mut token = SoftToken::new();
        let registration = register(&mut token, application, 1000, challenge).unwrap();
        let key = verify_registration(application, challenge, &registration).unwrap();
        assert_eq!(key, registration.public_key);
    }
}

#[test]
fn register_waits_for_the_touch() {
    let mut token = SoftToken::new();
    token.touches_needed = 7;
    let registration = register(&mut token, APPLICATION, 5000, CHALLENGE).unwrap();
    assert_eq!(token.touches_needed, 0);
    assert!(verify_registration(APPLICATION, CHALLENGE, &registration).is_ok());
}

#[test]
fn register_and_sign_time_out_when_nobody_touches() {
    let mut token = SoftToken::new();
    token.touches_needed = u32::MAX;
    let outcome = register(&mut token, APPLICATION, 5000, CHALLENGE);
    assert_eq!(outcome.unwrap_err(), Error::TimedOut);
    assert_eq!(u32::MAX - token.touches_needed, 52);
    let key_handle = token.key_handle.clone();
    let outcome = sign(&mut token, APPLICATION, 250, CHALLENGE, &key_handle);
    assert_eq!(outcome.unwrap_err(), Error::TimedOut);
}

#[test]
fn a_refused_command_is_a_protocol_error() {
    let mut token = SoftToken::new();
    let outcome = sign(&mut token, APPLICATION, 5000, CHALLENGE, &[0x01, 0x02, 0x03]);
    assert_eq!(outcome.unwrap_err(), Error::ProtocolError(0x6A80));
}

#[test]
fn verification_is_bound_to_application_and_challenge() {
    let mut token = SoftToken::new();
    let registration = register(&mut token, APPLICATION, 5000, CHALLENGE).unwrap();
    assert_eq!(
        verify_registration("https://example.org", CHALLENGE, &registration).unwrap_err(),
        Error::InvalidSignature
    );
    assert_eq!(
        verify_registration(APPLICATION, "abc124", &registration).unwrap_err(),
        Error::InvalidSignature
    );
}

#[test]
fn a_changed_signature_byte_fails_verification() {
    let mut token = SoftToken::new();
    let registration = register(&mut token, APPLICATION, 5000, CHALLENGE).unwrap();
    for i in 0..registration.signature.len() {
        for mask in [0x01u8, 0x80, 0xFF] {
            let mut changed = copy_of(&registration);
            changed.signature[i] ^= mask;
            assert_eq!(
                verify_registration(APPLICATION, CHALLENGE, &changed).unwrap_err(),
                Error::InvalidSignature,
                "signature byte {}",
                i
            );
        }
    }
}

#[test]
fn a_changed_key_handle_byte_fails_verification() {
    let mut token = SoftToken::new();
    let registration = register(&mut token, APPLICATION, 5000, CHALLENGE).unwrap();
    for i in 0..registration.key_handle.len() {
        let mut changed = copy_of(&registration);
        changed.key_handle[i] ^= 0x01;
        assert_eq!(
            verify_registration(APPLICATION, CHALLENGE, &changed).unwrap_err(),
            Error::InvalidSignature
        );
    }
}

#[test]
fn a_changed_public_key_byte_fails_verification() {
    let mut token = SoftToken::new();
    let registration = register(&mut token, APPLICATION, 5000, CHALLENGE).unwrap();
    for i in 0..registration.public_key.len() {
        let mut changed = copy_of(&registration);
        changed.public_key[i] ^= 0x01;
        assert_eq!(
            verify_registration(APPLICATION, CHALLENGE, &changed).unwrap_err(),
            Error::InvalidSignature
        );
    }
}

#[test]
fn a_changed_certificate_key_or_structure_fails_verification() {
    let mut token = SoftToken::new();
    let registration = register(&mut token, APPLICATION, 5000, CHALLENGE).unwrap();
    let certificate = &registration.attestation_certificate;
    let attestation_key = public_point(&token.attestation);
    let key_at = (0..certificate.len() - 65)
        .find(|&i| certificate[i..i + 65] == attestation_key[..])
        .unwrap();
    for i in (0..4).chain(key_at..key_at + 65) {
        let mut changed = copy_of(&registration);
        changed.attestation_certificate[i] ^= 0x01;
        let error = verify_registration(APPLICATION, CHALLENGE, &changed).unwrap_err();
        assert!(
            error == Error::InvalidCertificate || error == Error::InvalidSignature,
            "certificate byte {} gave {:?}",
            i,
            error
        );
    }
}

#[test]
fn a_certificate_that_does_not_parse_is_an_invalid_certificate() {
    let mut token = SoftToken::new();
    let registration = register(&mut token, APPLICATION, 5000, CHALLENGE).unwrap();
    let mut truncated = copy_of(&registration);
    truncated.attestation_certificate.pop();
    assert_eq!(
        verify_registration(APPLICATION, CHALLENGE, &truncated).unwrap_err(),
        Error::InvalidCertificate
    );
    let mut garbage = copy_of(&registration);
    garbage.attestation_certificate = vec![0x30, 0x03, 0x02, 0x01, 0x00];
    assert_eq!(
        verify_registration(APPLICATION, CHALLENGE, &garbage).unwrap_err(),
        Error::InvalidCertificate
    );
    let mut empty = copy_of(&registration);
    empty.attestation_certificate = Vec::new();
    assert_eq!(
        verify_registration(APPLICATION, CHALLENGE, &empty).unwrap_err(),
        Error::InvalidCertificate
    );
}

#[test]
fn a_registration_with_impossible_lengths_is_malformed() {
    let mut token = SoftToken::new();
    let registration = register(&mut token, APPLICATION, 5000, CHALLENGE).unwrap();
    let mut short_key = copy_of(&registration);
    short_key.public_key.pop();
    assert_eq!(
        verify_registration(APPLICATION, CHALLENGE, &short_key).unwrap_err(),
        Error::MalformedResponse
    );
    let mut long_handle = copy_of(&registration);
    long_handle.key_handle = vec![0x01; 256];
    assert_eq!(
        verify_registration(APPLICATION, CHALLENGE, &long_handle).unwrap_err(),
        Error::MalformedResponse
    );
}

#[test]
fn conclude_registration_orders_the_failures() {
    let mut token = SoftToken::new();
    let registration = register(&mut token, APPLICATION, 5000, CHALLENGE).unwrap();
    assert_eq!(
        conclude_registration(&registration, true, true).unwrap(),
        registration.public_key
    );
    assert_eq!(
        conclude_registration(&registration, true, false).unwrap_err(),
        Error::InvalidSignature
    );
    assert_eq!(
        conclude_registration(&registration, false, true).unwrap_err(),
        Error::InvalidCertificate
    );
    assert_eq!(
        conclude_registration(&registration, false, false).unwrap_err(),
        Error::InvalidCertificate
    );
    let mut malformed = copy_of(&registration);
    malformed.public_key.push(0x00);
    assert_eq!(
        conclude_registration(&malformed, true, true).unwrap_err(),
        Error::MalformedResponse
    );
}

#[test]
fn conclude_assertion_returns_the_counter_or_fails() {
    let assertion = SignResult { user_presence: 1, counter: 77, signature: vec![0x30] };
    assert_eq!(conclude_assertion(&assertion, true), Ok(77));
    assert_eq!(conclude_assertion(&assertion, false), Err(Error::InvalidSignature));
}

#[test]
fn sign_then_verify_returns_the_encoded_counter() {
    let mut token = SoftToken::new();
    let registration = register(&mut token, APPLICATION, 5000, CHALLENGE).unwrap();
    let public_key = verify_registration(APPLICATION, CHALLENGE, &registration).unwrap();
    let frame = sign_request(APPLICATION, "login-1", &registration.key_handle).unwrap();
    let payload = exchange(&mut token, &frame, 5000).unwrap();
    let assertion = parse_sign_response(&payload).unwrap();
    assert_eq!(assertion.user_presence, 0x01);
    let encoded = u32::from_be_bytes([payload[1], payload[2], payload[3], payload[4]]);
    assert_eq!(encoded, 42);
    let counter = verify_signature(
        APPLICATION,
        "login-1",
        &assertion,
        &registration.key_handle,
        &public_key,
    );
    assert_eq!(counter, Ok(42));
}

#[test]
fn sign_with_a_mismatched_public_key_is_an_invalid_signature() {
    let mut token = SoftToken::new();
    let registration = register(&mut token, APPLICATION, 5000, CHALLENGE).unwrap();
    let assertion =
        sign(&mut token, APPLICATION, 5000, "login-1", &registration.key_handle).unwrap();
    let other_key = public_point(&signing_key(0x33));
    let verify = |key: &[u8]| {
        verify_signature(APPLICATION, "login-1", &assertion, &registration.key_handle, key)
    };
    assert_eq!(verify(&other_key), Err(Error::InvalidSignature));
    assert_eq!(verify(&public_point(&token.attestation)), Err(Error::InvalidSignature));
    assert_eq!(verify(&[]), Err(Error::InvalidSignature));
    assert_eq!(verify(&registration.public_key[..64]), Err(Error::InvalidSignature));
    assert_eq!(verify(&registration.public_key), Ok(42));
}

#[test]
fn a_changed_assertion_fails_verification() {
    let mut token = SoftToken::new();
    let registration = register(&mut token, APPLICATION, 5000, CHALLENGE).unwrap();
    let assertion =
        sign(&mut token, APPLICATION, 5000, "login-1", &registration.key_handle).unwrap();
    let verify = |application: &str, challenge: &str, assertion: &SignResult| {
        verify_signature(
            application,
            challenge,
            assertion,
            &registration.key_handle,
            &registration.public_key,
        )
    };
    assert_eq!(verify(APPLICATION, "login-1", &assertion), Ok(42));
    assert_eq!(verify(APPLICATION, "login-2", &assertion), Err(Error::InvalidSignature));
    assert_eq!(verify("https://example.org", "login-1", &assertion), Err(Error::InvalidSignature));
    let other_counter = SignResult {
        user_presence: assertion.user_presence,
        counter: 43,
        signature: assertion.signature.clone(),
    };
    assert_eq!(verify(APPLICATION, "login-1", &other_counter), Err(Error::InvalidSignature));
    let other_flag = SignResult {
        user_presence: 0x00,
        counter: assertion.counter,
        signature: assertion.signature.clone(),
    };
    assert_eq!(verify(APPLICATION, "login-1", &other_flag), Err(Error::InvalidSignature));
    for i in 0..assertion.signature.len() {
        let mut signature = assertion.signature.clone();
        signature[i] ^= 0x01;
        let changed = SignResult { user_presence: 1, counter: 42, signature };
        assert_eq!(verify(APPLICATION, "login-1", &changed), Err(Error::InvalidSignature));
    }
}

#[test]
fn consecutive_signs_return_growing_counters() {
    let mut token = SoftToken::new();
    let registration = register(&mut token, APPLICATION, 5000, CHALLENGE).unwrap();
    let mut last: u32 = 0;
    for round in 0..5 {
        let challenge = format!("login-{}", round);
        let assertion =
            sign(&mut token, APPLICATION, 5000, &challenge, &registration.key_handle).unwrap();
        let counter = verify_signature(
            APPLICATION,
            &challenge,
            &assertion,
            &registration.key_handle,
            &registration.public_key,
        )
        .unwrap();
        assert!(counter > last);
        assert_eq!(counter, 42 + round);
        last = counter;
    }
}

#[test]
fn signed_data_is_laid_out_as_the_token_signs_it() {
    let application = application_id(APPLICATION);
    let challenge = challenge_hash(CHALLENGE);
    let registration =
        registration_signed_data(&application, &challenge, &[0xAA, 0xBB], &[0x04, 0x01, 0x02]);
    let mut expected = vec![0x00];
    expected.extend(&application);
    expected.extend(&challenge);
    expected.extend([0xAA, 0xBB, 0x04, 0x01, 0x02]);
    assert_eq!(registration, expected);
    let assertion = assertion_signed_data(&application, 0x01, 0x0102_0304, &challenge);
    let mut expected = application.clone();
    expected.extend([0x01, 0x01, 0x02, 0x03, 0x04]);
    expected.extend(&challenge);
    assert_eq!(assertion, expected);
    assert_eq!(assertion.len(), 69);
}

#[test]
fn the_token_answers_in_apdu_frames() {
    let mut token = SoftToken::new();
    let frame = register_request(APPLICATION, CHALLENGE);
    let response = decode(&token.answer(&frame)).unwrap();
    assert_eq!(response.status, 0x9000);
    assert!(parse_register_response(&response.payload).is_ok());
    assert!(matches!(
        step(ExchangeState::Waiting, Event::Reply { response: vec![0x6D, 0x00], elapsed_ms: 0 }, 1)
            .0,
        ExchangeState::Failed(Error::ProtocolError(0x6D00))
    ));
}
