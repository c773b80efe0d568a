use star::enclave_app::{
    attest, checked_user_len, decode_key_bundle, entry_checks, host_buffer, embedded_allow_advisory, embedded_allow_debug,
    embedded_allow_same_signer, enclave_max_count, encode_key_bundle, entry_op, entry_result,
    exclusive_op, is_user_range, optional_embedded_measurement, read_le_u32,
    report_data_for_public_key, select_ecdsa_p256_key_id, trusted_peer_identity, EnclaveApp,
    EnclaveStep, KeyBundle, ATT_KEY_ALGORITHM_OFFSET, MAX_COUNT, MEASURED_MAX_COUNT_BE,
    OP_ATTEST, OP_INIT, OP_INSTALL_KEYS, OP_ISSUE_CRED, OP_ISSUE_TOKEN, OP_ONE, OP_PUBLIC_KEY,
    OP_TRANSFER_PUBLIC_KEY, PUBLIC_KEY_LEN, SGX_QL_ALG_ECDSA_P256, STATUS_BAD_REQUEST,
    STATUS_BUFFER_TOO_SMALL, STATUS_NOT_INITIALIZED, STATUS_OK, STATUS_PANIC,
};
use star::star_core::enclave::Enclave;
use star::star_core::secure_channel::client::SecureChannelClient;

fn respond(step: EnclaveStep) -> (u8, Vec<u8>) {
    match step {
        EnclaveStep::Respond(status, payload) => (status, payload),
        EnclaveStep::Attest(_) => panic!("unexpected attestation step"),
        EnclaveStep::VerifyKeyManager => panic!("unexpected key manager step"),
    }
}

fn att_key_id(algorithm: u32) -> Vec<u8> {
    let mut id = vec![0u8; ATT_KEY_ALGORITHM_OFFSET + 4];
    id[ATT_KEY_ALGORITHM_OFFSET..ATT_KEY_ALGORITHM_OFFSET + 4]
        .copy_from_slice(&algorithm.to_le_bytes());
    id
}

#[test]
fn read_le_u32_reads_offset_and_rejects_short_inputs() {
    let mut bytes = vec![0u8; ATT_KEY_ALGORITHM_OFFSET + 4];
    bytes[ATT_KEY_ALGORITHM_OFFSET..ATT_KEY_ALGORITHM_OFFSET + 4]
        .copy_from_slice(&0x7856_3412u32.to_le_bytes());

    assert_eq!(
        read_le_u32(&bytes, ATT_KEY_ALGORITHM_OFFSET),
        Some(0x7856_3412)
    );
    assert_eq!(
        read_le_u32(&bytes[..ATT_KEY_ALGORITHM_OFFSET + 3], ATT_KEY_ALGORITHM_OFFSET),
        None
    );
}

#[test]
fn select_ecdsa_p256_key_id_skips_short_and_non_ecdsa_keys() {
    let rsa_key = att_key_id(1);
    let ecdsa_key = att_key_id(SGX_QL_ALG_ECDSA_P256);

    assert_eq!(
        select_ecdsa_p256_key_id(vec![vec![0u8; 12], rsa_key, ecdsa_key.clone()]),
        Some(ecdsa_key)
    );
    assert_eq!(select_ecdsa_p256_key_id(vec![att_key_id(1)]), None);
}

#[test]
fn init_rejects_raw_key_bundle() {
    let mut app = EnclaveApp::new();
    let bundle = KeyBundle {
        enc_key: [7u8; 32],
        hpke_receiver_key: [8u8; 32],
    };
    let payload = encode_key_bundle(bundle);

    let (status, payload) = respond(app.handle(OP_INIT, &payload));

    assert_eq!(status, STATUS_BAD_REQUEST);
    assert_eq!(
        payload,
        b"init does not accept keys; install key-manager envelope with OP_INSTALL_KEYS"
    );

    let (status, payload) = respond(app.handle(OP_PUBLIC_KEY, &[]));
    assert_eq!(status, STATUS_NOT_INITIALIZED);
    assert_eq!(payload, b"enclave is not initialized");
}

#[test]
fn empty_init_only_prepares_key_manager_transfer() {
    let mut app = EnclaveApp::new();

    let (status, payload) = respond(app.handle(OP_INIT, &[]));

    assert_eq!(status, STATUS_OK);
    assert!(payload.is_empty());

    let (status, payload) = respond(app.handle(OP_PUBLIC_KEY, &[]));
    assert_eq!(status, STATUS_NOT_INITIALIZED);
    assert_eq!(payload, b"enclave is not initialized");

    let (status, payload) = respond(app.handle(OP_TRANSFER_PUBLIC_KEY, &[]));
    assert_eq!(status, STATUS_OK);
    assert_eq!(payload.len(), PUBLIC_KEY_LEN);
}

#[test]
fn key_bundle_round_trips() {
    let bundle = KeyBundle {
        enc_key: [7u8; 32],
        hpke_receiver_key: [8u8; 32],
    };

    let encoded = encode_key_bundle(bundle);
    let decoded = decode_key_bundle(&encoded).expect("decode");

    assert_eq!(decoded.enc_key, bundle.enc_key);
    assert_eq!(decoded.hpke_receiver_key, bundle.hpke_receiver_key);
}

#[test]
fn key_bundle_must_have_64_bytes() {
    assert_eq!(
        decode_key_bundle(&[0u8; 63]).err(),
        Some("key bundle must be 64 bytes".to_string())
    );
    assert!(decode_key_bundle(&[0u8; 65]).is_err());
}

#[test]
fn measured_max_count_matches_policy() {
    assert_eq!(enclave_max_count(), MAX_COUNT);
    assert_eq!(MEASURED_MAX_COUNT_BE, MAX_COUNT.to_be_bytes());
}

#[test]
fn dispatch_of_an_initialized_enclave() {
    let enclave = Enclave::new(3, [1u8; 32], [2u8; 32]).unwrap();
    let public_key = enclave.public_key();
    let mut app = EnclaveApp::with_enclave(enclave);

    let (status, payload) = respond(app.handle(OP_PUBLIC_KEY, &[]));
    assert_eq!(status, STATUS_OK);
    assert_eq!(payload, public_key.to_vec());

    let (status, payload) = respond(app.handle(OP_INIT, &[]));
    assert_eq!(status, STATUS_BAD_REQUEST);
    assert_eq!(payload, b"enclave already initialized");
    let (status, _) = respond(app.handle(OP_INSTALL_KEYS, &[1, 2, 3]));
    assert_eq!(status, STATUS_BAD_REQUEST);

    let (status, payload) = respond(app.handle(OP_ONE, &[]));
    assert_eq!(status, STATUS_OK);
    assert_eq!(payload, vec![1u8; 32]);

    let (status, payload) = respond(app.handle(99, &[]));
    assert_eq!(status, STATUS_BAD_REQUEST);
    assert_eq!(payload, b"unknown operation");

    let (status, payload) = respond(app.handle(OP_ISSUE_TOKEN, &[0u8; 7]));
    assert_eq!(status, STATUS_BAD_REQUEST);
    assert_eq!(payload, b"issue_token missing period");

    // a credential issued through the dispatcher
    let client = SecureChannelClient::new(public_key).unwrap();
    let (request, key) = client.send_shared_key().unwrap();
    let (status, reply) = respond(app.handle(OP_ISSUE_CRED, &request));
    assert_eq!(status, STATUS_OK);
    let cred = client.decrypt_with_shared_key(&reply, &key).unwrap();
    assert_eq!(cred.len(), 64);

    // a token request through the dispatcher: period || envelope
    let mut plain = cred.clone();
    plain.extend_from_slice(&0u64.to_be_bytes());
    plain.extend_from_slice(&9u64.to_be_bytes());
    let envelope = client.send_hpke(&plain).unwrap();
    let mut payload = 9u64.to_be_bytes().to_vec();
    payload.extend_from_slice(&envelope);
    let (status, token) = respond(app.handle(OP_ISSUE_TOKEN, &payload));
    assert_eq!(status, STATUS_OK);
    assert_eq!(token.len(), 32);

    let (status, _) = respond(app.handle(OP_ISSUE_CRED, &[0u8; 10]));
    assert_eq!(status, STATUS_BAD_REQUEST);
}

#[test]
fn attestation_binds_the_transfer_key() {
    let mut app = EnclaveApp::new();
    let (_, transfer_key) = respond(app.handle(OP_TRANSFER_PUBLIC_KEY, &[]));
    match app.handle(OP_ATTEST, &[]) {
        EnclaveStep::Attest(report_data) => {
            assert_eq!(&report_data[..32], transfer_key.as_slice());
            assert_eq!(&report_data[32..], &[0u8; 32]);
            let key: [u8; 32] = transfer_key.clone().try_into().unwrap();
            assert_eq!(report_data, report_data_for_public_key(key));
        }
        _ => panic!("expected an attestation step"),
    }
    let (status, _) = respond(app.handle(OP_ATTEST, &[1]));
    assert_eq!(status, STATUS_BAD_REQUEST);
    assert_eq!(EnclaveApp::finish_attest(Ok(vec![5, 6])), (STATUS_OK, vec![5, 6]));
    assert_eq!(
        EnclaveApp::finish_attest(Err("no quote".to_string())),
        (STATUS_PANIC, b"no quote".to_vec())
    );
    assert!(matches!(
        app.handle(OP_INSTALL_KEYS, &[]),
        EnclaveStep::VerifyKeyManager
    ));
}

#[test]
fn host_buffers_are_checked() {
    assert_eq!(checked_user_len(0), Ok(0));
    assert_eq!(checked_user_len(16 * 1024 * 1024), Ok(16 * 1024 * 1024));
    assert_eq!(checked_user_len(16 * 1024 * 1024 + 1), Err(STATUS_BAD_REQUEST));
    assert_eq!(checked_user_len(u64::MAX), Err(STATUS_BAD_REQUEST));

    // enclave at [1000, 2000)
    assert!(is_user_range(0, 1000, 1000, 1000));
    assert!(!is_user_range(0, 1001, 1000, 1000));
    assert!(!is_user_range(1999, 1, 1000, 1000));
    assert!(is_user_range(2000, 10, 1000, 1000));
    assert!(is_user_range(5, 0, 1000, 1000));
    assert!(!is_user_range(usize::MAX, 2, 1000, 1000));
    assert!(!is_user_range(0, 10, usize::MAX, 2));

    assert_eq!(entry_result(STATUS_OK, 10, 9), (STATUS_BUFFER_TOO_SMALL as u64, 10));
    assert_eq!(entry_result(STATUS_OK, 9, 9), (STATUS_OK as u64, 9));
    assert_eq!(entry_op(7), Ok(7));
    assert_eq!(entry_op(256), Err(STATUS_BAD_REQUEST));
    assert!(exclusive_op(OP_INIT) && exclusive_op(OP_INSTALL_KEYS));
    assert!(!exclusive_op(OP_PUBLIC_KEY));
}

#[test]
fn embedded_policies() {
    assert_eq!(embedded_allow_debug(Some("yes"), Some("0"), false), Ok(true));
    assert_eq!(embedded_allow_debug(None, Some("FALSE"), true), Ok(false));
    assert_eq!(embedded_allow_debug(None, None, true), Ok(true));
    assert_eq!(
        embedded_allow_debug(Some("maybe"), None, true),
        Err("invalid embedded debug policy".to_string())
    );
    assert_eq!(embedded_allow_advisory(None, None), Ok(false));
    assert_eq!(embedded_allow_advisory(None, Some("1")), Ok(true));
    assert_eq!(
        embedded_allow_advisory(Some("True"), None),
        Err("invalid embedded advisory policy".to_string())
    );
    assert_eq!(embedded_allow_same_signer(Some("NO"), None), Ok(false));
    assert_eq!(
        embedded_allow_same_signer(Some(""), None),
        Err("invalid embedded same-signer policy".to_string())
    );
}

#[test]
fn trusted_peer_identity_needs_a_measurement_or_same_signer() {
    let hex_a = "0x".to_string() + &"aa".repeat(32);
    let mine = [9u8; 32];
    assert_eq!(
        trusted_peer_identity(Some(&hex_a), "E", None, "S", None, None, mine),
        Ok((Some([0xaa; 32]), None))
    );
    assert_eq!(
        trusted_peer_identity(None, "E", Some(&hex_a), "S", None, None, mine),
        Ok((None, Some([0xaa; 32])))
    );
    assert_eq!(
        trusted_peer_identity(None, "E", None, "S", Some("1"), None, mine),
        Ok((None, Some(mine)))
    );
    assert_eq!(
        trusted_peer_identity(None, "E", None, "S", None, Some("yes"), mine),
        Ok((None, Some(mine)))
    );
    assert_eq!(
        trusted_peer_identity(None, "E", None, "S", None, None, mine),
        Err("E, S, or STAR_TRUST_SAME_SIGNER_ENCLAVES must be embedded for peer trust".to_string())
    );
    assert!(trusted_peer_identity(Some("zz"), "E", None, "S", Some("1"), None, mine).is_err());
    assert!(trusted_peer_identity(None, "E", None, "S", Some("bad"), None, mine).is_err());
    assert_eq!(optional_embedded_measurement(None, "E"), Ok(None));
    assert!(optional_embedded_measurement(Some("aa"), "E").is_err());
}

#[test]
fn attest_reports_unsupported_outside_sgx() {
    assert!(attest([0u8; 64])
        .expect_err("attest should require SGX")
        .contains("Fortanix SGX target"));
}

#[test]
fn outside_sgx_attestation_and_key_installation_are_refused() {
    let mut app = EnclaveApp::new();
    let (status, body) = app.handle_outside_sgx(OP_ATTEST, &[]);
    assert_eq!(status, STATUS_PANIC);
    assert!(String::from_utf8(body).unwrap().contains("Fortanix SGX target"));
    assert_eq!(
        app.handle_outside_sgx(OP_ATTEST, &[1]),
        (
            STATUS_BAD_REQUEST,
            b"transfer attestation does not accept host report_data".to_vec()
        )
    );
    assert_eq!(
        app.handle_outside_sgx(OP_INSTALL_KEYS, &[1, 2, 3]),
        (
            STATUS_BAD_REQUEST,
            b"key-manager policy is only available inside SGX".to_vec()
        )
    );
    assert_eq!(app.handle_outside_sgx(OP_INIT, &[]), (STATUS_OK, vec![]));
    assert_eq!(
        app.handle_outside_sgx(OP_PUBLIC_KEY, &[]),
        (STATUS_NOT_INITIALIZED, b"enclave is not initialized".to_vec())
    );
    assert_eq!(
        app.handle_outside_sgx(9, &[]),
        (STATUS_BAD_REQUEST, b"unknown operation".to_vec())
    );

    let enclave = Enclave::new(1, [1u8; 32], [2u8; 32]).unwrap();
    let pk = enclave.public_key();
    let mut app = EnclaveApp::with_enclave(enclave);
    assert_eq!(
        app.handle_outside_sgx(OP_INSTALL_KEYS, &[]),
        (STATUS_BAD_REQUEST, b"enclave already initialized".to_vec())
    );
    assert_eq!(
        app.handle_outside_sgx(OP_INIT, &[]),
        (STATUS_BAD_REQUEST, b"enclave already initialized".to_vec())
    );
    assert_eq!(app.handle_outside_sgx(OP_PUBLIC_KEY, &[]), (STATUS_OK, pk.to_vec()));
}

#[test]
fn entry_checks_refuse_bad_operations_and_buffers() {
    // enclave at [1000, 2000)
    let ok = entry_checks(OP_ONE as u64, 3000, 4, 4000, 64, 1000, 1000);
    assert_eq!(ok, Ok((OP_ONE, 4, 64)));
    assert_eq!(entry_checks(256, 3000, 4, 4000, 64, 1000, 1000), Err((2, 0)));
    assert_eq!(
        entry_checks(1, 3000, 16 * 1024 * 1024 + 1, 4000, 64, 1000, 1000),
        Err((2, 0))
    );
    assert_eq!(entry_checks(1, 0, 4, 4000, 64, 1000, 1000), Err((2, 0)));
    assert_eq!(entry_checks(1, 3000, 4, 0, 64, 1000, 1000), Err((2, 0)));
    assert_eq!(entry_checks(1, 1500, 4, 4000, 64, 1000, 1000), Err((2, 0)));
    assert_eq!(entry_checks(1, 3000, 4, 1999, 2, 1000, 1000), Err((2, 0)));
    // empty buffers are accepted wherever they point
    assert_eq!(entry_checks(1, 0, 0, 1500, 0, 1000, 1000), Ok((1, 0, 0)));
    assert_eq!(host_buffer(0, 1, 1000, 1000), Err(STATUS_BAD_REQUEST));
    assert_eq!(host_buffer(3000, 8, 1000, 1000), Ok(8));
}

#[test]
fn library_entry_copies_the_answer_or_reports_its_length() {
    let mut app = EnclaveApp::new();
    let mut output = vec![7u8; 40];
    let r = app.library_entry(OP_ONE as u64, 3000, &[], 4000, &mut output, 1000, 1000);
    assert_eq!(r, (STATUS_OK as u64, 32));
    assert_eq!(&output[..32], &[1u8; 32][..]);
    assert_eq!(&output[32..], &[7u8; 8][..]);

    let mut small = vec![7u8; 10];
    let r = app.library_entry(OP_ONE as u64, 3000, &[], 4000, &mut small, 1000, 1000);
    assert_eq!(r, (STATUS_BUFFER_TOO_SMALL as u64, 32));
    assert_eq!(small, vec![7u8; 10]);

    let mut output = vec![7u8; 40];
    let r = app.library_entry(300, 3000, &[], 4000, &mut output, 1000, 1000);
    assert_eq!(r, (STATUS_BAD_REQUEST as u64, 0));
    assert_eq!(output, vec![7u8; 40]);
    let r = app.library_entry(OP_ONE as u64, 3000, &[], 1500, &mut output, 1000, 1000);
    assert_eq!(r, (STATUS_BAD_REQUEST as u64, 0));

    let mut output = vec![0u8; 64];
    let r = app.library_entry(OP_PUBLIC_KEY as u64, 3000, &[], 4000, &mut output, 1000, 1000);
    assert_eq!(r, (STATUS_NOT_INITIALIZED as u64, 26));
    assert_eq!(&output[..26], b"enclave is not initialized");
}

#[test]
fn installed_keys_are_never_replaced() {
    let enclave = Enclave::new(1, [1u8; 32], [2u8; 32]).unwrap();
    let pk = enclave.public_key();
    let mut app = EnclaveApp::with_enclave(enclave);
    assert_eq!(
        app.install_verified_keys([5u8; 32], &[]),
        (STATUS_BAD_REQUEST, b"enclave already initialized".to_vec())
    );
    assert_eq!(respond(app.handle(OP_PUBLIC_KEY, &[])), (STATUS_OK, pk.to_vec()));
}

#[test]
fn install_reports_an_envelope_that_does_not_open() {
    let mut app = EnclaveApp::new();
    let (status, body) = app.install_verified_keys([5u8; 32], &[0u8; 10]);
    assert_eq!(status, STATUS_BAD_REQUEST);
    assert!(body.starts_with(b"decrypt key-manager envelope: "));
    assert!(app.enclave.is_none());
}

#[test]
fn library_entry_issues_a_credential_for_a_valid_request() {
    let enclave = Enclave::new(1, [1u8; 32], [2u8; 32]).unwrap();
    let client = SecureChannelClient::new(enclave.public_key()).unwrap();
    let (request, _key) = client.send_shared_key().unwrap();
    let mut app = EnclaveApp::with_enclave(enclave);
    let mut output = vec![0u8; 256];
    let (status, len) =
        app.library_entry(OP_ISSUE_CRED as u64, 3000, &request, 4000, &mut output, 1000, 1000);
    assert_eq!(status, STATUS_OK as u64);
    assert!(len > 0);
}
