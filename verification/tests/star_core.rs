use star::star_core::client::User;
use star::star_core::cred::Credential;
use star::star_core::enclave::Enclave;
use star::star_core::secure_channel::client::SecureChannelClient;
use star::star_core::secure_channel::server::{split_hpke_envelope, SecureChannelServer};
use star::star_core::token::Token;

#[test]
fn tests_test_all() {
    let receiver = SecureChannelServer::random();
    let receiver_pk = receiver.public_key();

    let sender = SecureChannelClient::new(receiver_pk).expect("sender init failed");
    let (envelope, shared_key) = sender.send_shared_key().expect("send shared key failed");

    const AAD_LEN: usize = 32;
    const INFO_LEN: usize = 32;
    const ENC_LEN: usize = 32;
    let min_len = AAD_LEN + INFO_LEN + ENC_LEN;
    assert!(envelope.len() >= min_len, "HPKE envelope too short");

    let aad = &envelope[..AAD_LEN];
    let info = &envelope[AAD_LEN..AAD_LEN + INFO_LEN];
    let enc = &envelope[AAD_LEN + INFO_LEN..AAD_LEN + INFO_LEN + ENC_LEN];
    let ciphertext = &envelope[AAD_LEN + INFO_LEN + ENC_LEN..];

    let decrypted_key = receiver
        .receive_hpke(enc, info, aad, ciphertext)
        .expect("receiver failed to decrypt shared key");
    assert_eq!(decrypted_key.as_slice(), &shared_key);

    let response = b"hello-from-receiver";
    let response_cipher = receiver.respond_cipher(response, &envelope);
    let response_plaintext = sender
        .decrypt_with_shared_key(&response_cipher, &shared_key)
        .expect("sender failed to decrypt receiver response");
    assert_eq!(response_plaintext.as_slice(), response);
}

#[test]
fn envelope_split_and_short_inputs() {
    let bytes: Vec<u8> = (0u8..100).collect();
    let (aad, info, enc, ct) = split_hpke_envelope(&bytes).unwrap();
    assert_eq!(aad, &bytes[0..32]);
    assert_eq!(info, &bytes[32..64]);
    assert_eq!(enc, &bytes[64..96]);
    assert_eq!(ct, &bytes[96..]);
    assert!(split_hpke_envelope(&bytes[..95]).is_none());
    let server = SecureChannelServer::random();
    assert!(server.respond_cipher(b"x", &bytes[..95]).is_empty());
    // an envelope that was not sealed to this key does not open
    assert!(server.respond_cipher(b"x", &bytes).is_empty());
    let client = SecureChannelClient::new(server.public_key()).unwrap();
    assert!(client.decrypt_with_shared_key(&[0u8; 11], &[0u8; 32]).is_err());
}

#[test]
fn channel_keys_are_derived_not_copied() {
    let server = SecureChannelServer::new([5u8; 32]).unwrap();
    assert_ne!(server.public_key(), [5u8; 32]);
    let again = SecureChannelServer::new([5u8; 32]).unwrap();
    assert_eq!(server.public_key(), again.public_key());
}

fn enclave(max: u32) -> Enclave {
    Enclave::new(max, [11u8; 32], [12u8; 32]).expect("enclave")
}

fn registered_user(enclave: &Enclave, max: u64) -> User {
    let client = SecureChannelClient::new(enclave.public_key()).unwrap();
    let mut user = User::new(max, client);
    let (request, shared_key) = user.request_credential().unwrap();
    let reply = enclave.issue_cred(&request);
    assert!(!reply.is_empty());
    let cred = user.receive_credential(&reply, &shared_key).expect("credential");
    assert_eq!(user.credential.map(|c| c.to_bytes()), Some(cred.to_bytes()));
    user
}

#[test]
fn issued_credential_earns_tokens_within_the_limit() {
    let enclave = enclave(2);
    let mut user = registered_user(&enclave, 2);
    let period = 1_000u64;

    let request = user.request_auth(0, period).unwrap();
    let token = enclave.issue_token(&request, period.to_be_bytes()).unwrap();
    assert_eq!(token.len(), 32);
    let cred = user.credential.unwrap();
    let expected = Token::random(cred.uid, period.to_be_bytes(), 0u64.to_be_bytes());
    assert_eq!(token, expected.to_bytes());
    assert_ne!(token, cred.uid.to_vec());

    // the plain request is credential || count || period
    let plain = user.request_auth_plain(1, period);
    assert_eq!(plain.len(), 80);
    assert_eq!(&plain[..64], cred.to_bytes().as_slice());
    assert_eq!(&plain[64..72], &1u64.to_be_bytes());
    assert_eq!(&plain[72..], &period.to_be_bytes());
    let second = enclave.issue_token_plain(&plain, period.to_be_bytes());
    assert_eq!(second.len(), 32);
    assert_ne!(second, token);

    // the route is the token's first four bytes modulo the number of routes
    let route = user.route(0, period, 7);
    let prefix = u32::from_be_bytes([token[0], token[1], token[2], token[3]]);
    assert_eq!(route, prefix % 7);
    assert_eq!(Token::new(token.clone().try_into().unwrap()).route(7), route);
}

#[test]
fn requests_over_the_limit_or_for_another_period_get_zero() {
    let enclave = enclave(1);
    let mut user = registered_user(&enclave, 5);
    let period = 77u64;

    let over = user.request_auth_plain(1, period);
    assert_eq!(enclave.issue_token_plain(&over, period.to_be_bytes()), vec![0u8]);

    let stale = user.request_auth_plain(0, period);
    assert_eq!(
        enclave.issue_token_plain(&stale, (period + 1).to_be_bytes()),
        vec![0u8]
    );

    assert_eq!(enclave.issue_token_plain(&stale[..79], period.to_be_bytes()), vec![0u8]);
    assert_eq!(enclave.issue_token(&[0u8; 50], period.to_be_bytes()), Err(1));
}

#[test]
fn forged_credentials_are_refused() {
    let enclave = enclave(10);
    let forged = Credential::new([1u8; 32], [2u8; 32]);
    let mut request = forged.to_bytes();
    request.extend_from_slice(&0u64.to_be_bytes());
    request.extend_from_slice(&5u64.to_be_bytes());
    assert_eq!(enclave.issue_token_plain(&request, 5u64.to_be_bytes()), vec![0u8]);

    let genuine = Credential::for_uid([11u8; 32], [1u8; 32]);
    assert_ne!(genuine.code, [1u8; 32]);
    let mut request = genuine.to_bytes();
    request.extend_from_slice(&0u64.to_be_bytes());
    request.extend_from_slice(&5u64.to_be_bytes());
    assert_eq!(enclave.issue_token_plain(&request, 5u64.to_be_bytes()).len(), 32);
}

#[test]
fn credentials_and_tokens_read_back_from_bytes() {
    let cred = Credential::new([3u8; 32], [4u8; 32]);
    let bytes = cred.to_bytes();
    assert_eq!(bytes.len(), 64);
    let back = Credential::from_bytes(&bytes);
    assert_eq!(back.uid, [3u8; 32]);
    assert_eq!(back.code, [4u8; 32]);

    let mut record = vec![9u8; 32];
    record.extend_from_slice(&[0u8; 8]);
    let token = Token::from_bytes(&record);
    assert_eq!(token.token, [9u8; 32]);
    assert_eq!(token.to_bytes(), vec![9u8; 32]);
    assert_eq!(Token::new([0, 0, 1, 0, 0, 0, 0, 0, 0, 0, 0, 0, 0, 0, 0, 0, 0, 0, 0, 0, 0, 0, 0, 0, 0, 0, 0, 0, 0, 0, 0, 0]).route(100), 256 % 100);

    let c = Credential::random([8u8; 32]);
    let check = Credential::for_uid([8u8; 32], c.uid);
    assert_eq!(check.code, c.code);
    assert!(c.is_valid([1u8; 8], [0u8; 8], [1u8; 8], [0, 0, 0, 0, 0, 0, 0, 1], [8u8; 32]));
    assert!(!c.is_valid([1u8; 8], [0, 0, 0, 0, 0, 0, 0, 1], [1u8; 8], [0, 0, 0, 0, 0, 0, 0, 1], [8u8; 32]));
    assert!(!c.is_valid([2u8; 8], [0u8; 8], [1u8; 8], [0, 0, 0, 0, 0, 0, 0, 1], [8u8; 32]));
    assert!(!c.is_valid([1u8; 8], [0u8; 8], [1u8; 8], [0, 0, 0, 0, 0, 0, 0, 1], [9u8; 32]));
}

#[test]
fn receive_credential_plain_and_default_enclave() {
    let enclave = Enclave::default();
    let client = SecureChannelClient::new(enclave.public_key()).unwrap();
    let mut user = User::new(3, client);
    assert!(user.credential.is_none());
    let stored = user.receive_credential_plain(&[6u8; 64]).unwrap();
    assert_eq!(stored.uid, [6u8; 32]);
    // a default enclave allows no tokens at all
    let plain = user.request_auth_plain(0, 1);
    assert_eq!(enclave.issue_token_plain(&plain, 1u64.to_be_bytes()), vec![0u8]);
    // a plain credential answer
    let cred = enclave.issue_cred_plain();
    assert_eq!(cred.len(), 64);
    // an answer the user cannot decrypt leaves it without a credential
    let mut fresh = User::new(3, SecureChannelClient::new(enclave.public_key()).unwrap());
    assert!(fresh.try_receive_credential(&[0u8; 40], &[1u8; 32]).is_none());
    assert!(fresh.credential.is_none());
}
