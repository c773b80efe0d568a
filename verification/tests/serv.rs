use base64::engine::general_purpose::URL_SAFE;
use base64::Engine;
use star::serv::api::{PublicKeyApi, DEFAULT_PUBLIC_KEY_API, DEFAULT_REGISTER_API};
use star::serv::runtime::{
    initial_response_capacity, issue_token_payload, library_call_step, public_key_from_response,
    thread_count, EnclaveError, LibraryStep, PermitState, OP_ATTEST, OP_INIT, OP_ISSUE_CRED,
    OP_PUBLIC_KEY,
};
use star::serv::startup::{early_response, upstream_sni, use_tls, StartupAttestation};

#[test]
fn api_paths() {
    assert_eq!(DEFAULT_REGISTER_API, "/star/register");
    assert_eq!(DEFAULT_PUBLIC_KEY_API, "/star/public_key");
    let api = PublicKeyApi::from_public_key([0xfb; 32]);
    assert_eq!(api.handle(), (200, URL_SAFE.encode([0xfb; 32])));
}

#[test]
fn response_capacities() {
    assert_eq!(initial_response_capacity(OP_INIT, 5), 0);
    assert_eq!(initial_response_capacity(OP_PUBLIC_KEY, 0), 32);
    assert_eq!(initial_response_capacity(OP_ISSUE_CRED, 0), 128);
    assert_eq!(initial_response_capacity(OP_ATTEST, 0), 32);
    assert_eq!(initial_response_capacity(99, 0), 1024);
}

#[test]
fn token_payload_and_public_key_responses() {
    assert_eq!(
        issue_token_payload(&[9, 9], [1, 2, 3, 4, 5, 6, 7, 8]),
        vec![1, 2, 3, 4, 5, 6, 7, 8, 9, 9]
    );
    assert_eq!(public_key_from_response(&[4u8; 32]).unwrap(), [4u8; 32]);
    match public_key_from_response(&[4u8; 31]) {
        Err(EnclaveError::InvalidPublicKeyLength { len }) => assert_eq!(len, 31),
        _ => panic!("expected a length error"),
    }
}

#[test]
fn library_calls_grow_the_buffer_then_finish() {
    match library_call_step(5, 300, vec![0u8; 32]) {
        LibraryStep::Retry(n) => assert_eq!(n, 300),
        _ => panic!("expected a retry"),
    }
    match library_call_step(5, 16 * 1024 * 1024 + 1, vec![]) {
        LibraryStep::Done(Err(EnclaveError::ResponseTooLarge { len })) => {
            assert_eq!(len, 16 * 1024 * 1024 + 1)
        }
        _ => panic!("expected a refusal"),
    }
    match library_call_step(0, 2, vec![7, 8, 9]) {
        LibraryStep::Done(Ok(v)) => assert_eq!(v, vec![7, 8]),
        _ => panic!("expected an answer"),
    }
    match library_call_step(0, 4, vec![7, 8, 9]) {
        LibraryStep::Done(Err(EnclaveError::ResponseTooLarge { len })) => assert_eq!(len, 4),
        _ => panic!("expected a refusal"),
    }
    match library_call_step(2, 1, vec![7, 8, 9]) {
        LibraryStep::Done(Err(EnclaveError::Remote { status, payload })) => {
            assert_eq!(status, 2);
            assert_eq!(payload, vec![7]);
        }
        _ => panic!("expected a remote error"),
    }
}

#[test]
fn enclave_error_messages() {
    assert_eq!(
        EnclaveError::InvalidPublicKeyLength { len: 31 }.message(),
        "enclave returned public key with invalid length 31"
    );
    assert_eq!(
        EnclaveError::Remote { status: 2, payload: vec![0; 12] }.message(),
        "enclave returned status 2 with 12 bytes"
    );
    assert_eq!(
        EnclaveError::ResponseTooLarge { len: 0 }.message(),
        "enclave response is too large: 0"
    );
    assert_eq!(EnclaveError::Dcap("x".to_string()).message(), "DCAP evidence failed: x");
    let io = std::io::Error::new(std::io::ErrorKind::Other, "disk");
    let err = EnclaveError::Storage(io);
    assert_eq!(err.message(), "sealed key storage failed: disk");
    assert!(err.source().is_some());
    assert!(EnclaveError::Library("y".to_string()).source().is_none());
}

#[test]
fn permits_are_taken_and_given_back() {
    let mut permits = PermitState::new(2, 8);
    assert_eq!((permits.available, permits.total), (2, 2));
    assert_eq!(permits.try_acquire(), Some(true));
    assert_eq!(permits.try_acquire(), Some(true));
    assert_eq!(permits.try_acquire(), Some(false));
    assert!(permits.release());
    assert_eq!(permits.available, 1);
    assert!(permits.release());
    assert!(!permits.release());
    assert_eq!(permits.available, 2);
    let mut empty = PermitState::new(4, 0);
    assert_eq!(empty.try_acquire(), None);
    assert_eq!(PermitState::new(10, 3).total, 3);
}

#[test]
fn thread_counts() {
    assert_eq!(thread_count(Some("4"), 1), 4);
    assert_eq!(thread_count(Some("0"), 3), 3);
    assert_eq!(thread_count(Some("x"), 3), 3);
    assert_eq!(thread_count(None, 2), 2);
}

#[test]
fn startup_output_and_proxy_decisions() {
    let quote = [1u8, 2, 3];
    let attestation = StartupAttestation {
        public_key: [0u8; 32],
        key_manager_quote: &quote,
        filter_quote: &[4],
        issue_quote: &[5],
        filter_evidence_for_key_manager: &[6],
        issue_evidence_for_key_manager: &[7],
        key_manager_evidence_for_filter: &[8],
        key_manager_evidence_for_issue: &[9],
    };
    let lines = attestation.lines();
    assert_eq!(lines.len(), 9);
    assert_eq!(
        lines[0],
        format!("STAR_ATTESTATION_PUBLIC_KEY_BASE64={}", URL_SAFE.encode([0u8; 32]))
    );
    assert_eq!(lines[1], "STAR_ATTESTATION_QUOTE_BASE64=AQID");
    assert_eq!(lines[2], "STAR_KEY_MANAGER_QUOTE_BASE64=AQID");
    assert_eq!(lines[8], "STAR_KEY_MANAGER_DCAP_EVIDENCE_FOR_ISSUE_ENCLAVE_BASE64=CQ==");

    assert_eq!(upstream_sni("example.com:443"), "example.com");
    assert_eq!(upstream_sni("example.com"), "example.com");
    assert_eq!(upstream_sni(":1"), "");
    assert!(use_tls("cert.pem", "key.pem"));
    assert!(!use_tls("", "key.pem"));
    assert_eq!(early_response("OPTIONS"), Some(204));
    assert_eq!(early_response("GET"), None);
}
