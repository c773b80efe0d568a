use base64::engine::general_purpose::{URL_SAFE, URL_SAFE_NO_PAD};
use base64::Engine;
use star::client_auth::{
    public_key_from_text, receive_registration, registration_request, try_receive_registration,
    RegisterError,
    StarAuthState, TokenRequestError,
};
use star::client_proxy::{
    add_cors_headers, cors_preflight_response, find_header_end, force_connection_close,
    head_step, is_preflight, parse_unsigned_u64, plan_request, rewrite_headers, HeadStep,
    ProxyConfig, RequestPlan, MAX_HEADER_SIZE, STAR_TLS_EXTENSION_TYPE,
};
use star::serv::api::{decode_issue_request, issue_response, PublicKeyApi};
use star::star_core::client::User;
use star::star_core::enclave::Enclave;
use star::star_core::secure_channel::client::SecureChannelClient;
use star::text::truthy;

#[test]
fn finds_the_end_of_a_head() {
    assert_eq!(find_header_end(b"GET / HTTP/1.1\r\nHost: a\r\n\r\nbody"), Some(27));
    assert_eq!(find_header_end(b"\r\n\r\n"), Some(4));
    assert_eq!(find_header_end(b"GET / HTTP/1.1\r\nHost: a\r\n"), None);
    assert_eq!(find_header_end(b"\r\n\r"), None);
    assert_eq!(find_header_end(b""), None);
    assert_eq!(find_header_end(b"a\r\n\r\n\r\n\r\n"), Some(5));
}

#[test]
fn rewrite_headers_replaces_named_headers() {
    let request = b"GET / HTTP/1.1\r\nHost: a\r\nConnection: keep-alive\r\nKeep-Alive: 5\r\n\r\nbody";
    let out = rewrite_headers(request, &["connection:", "keep-alive:"], &["Connection: close"]);
    assert_eq!(
        out,
        b"GET / HTTP/1.1\r\nHost: a\r\nConnection: close\r\n\r\nbody".to_vec()
    );
    // the first line stays even when it looks like a header to remove
    let odd = b"connection: x\r\nA: b\r\n\r\n";
    assert_eq!(
        rewrite_headers(odd, &["connection:"], &[]),
        b"connection: x\r\nA: b\r\n\r\n".to_vec()
    );
    // an incomplete head is left as it is
    let partial = b"GET / HTTP/1.1\r\nConnection: x\r\n";
    assert_eq!(rewrite_headers(partial, &["connection:"], &["X: y"]), partial.to_vec());
    // a head that is not UTF-8 is left as it is
    let binary = b"GET \xff HTTP/1.1\r\nConnection: x\r\n\r\n";
    assert_eq!(rewrite_headers(binary, &["connection:"], &[]), binary.to_vec());
}

#[test]
fn force_connection_close_closes() {
    let request = b"POST /x HTTP/1.1\r\nPROXY-CONNECTION: keep-alive\r\nContent-Length: 2\r\n\r\nhi";
    assert_eq!(
        force_connection_close(request),
        b"POST /x HTTP/1.1\r\nContent-Length: 2\r\nConnection: close\r\n\r\nhi".to_vec()
    );
}

#[test]
fn add_cors_headers_opens_the_response() {
    let response = b"HTTP/1.1 200 OK\r\nAccess-Control-Allow-Origin: https://a\r\nContent-Type: text/plain\r\nConnection: keep-alive\r\n\r\nok";
    let expected = b"HTTP/1.1 200 OK\r\nContent-Type: text/plain\r\nAccess-Control-Allow-Origin: *\r\nAccess-Control-Allow-Methods: GET, POST, PUT, PATCH, DELETE, OPTIONS\r\nAccess-Control-Allow-Headers: *\r\nAccess-Control-Expose-Headers: *\r\nConnection: close\r\n\r\nok";
    assert_eq!(add_cors_headers(response), expected.to_vec());
}

#[test]
fn preflight_requests_are_recognised() {
    assert!(is_preflight(
        b"OPTIONS /x HTTP/1.1\r\nHost: a\r\nAccess-Control-Request-Method: POST\r\n\r\n"
    ));
    assert!(is_preflight(b"OPTIONS * HTTP/1.1\naccess-control-request-method:GET\n\n"));
    assert!(!is_preflight(b"OPTIONS /x HTTP/1.1\r\nHost: a\r\n\r\n"));
    assert!(!is_preflight(
        b"GET /x HTTP/1.1\r\nAccess-Control-Request-Method: POST\r\n\r\n"
    ));
    assert!(!is_preflight(
        b"OPTIONS /x HTTP/1.1\r\nX: Access-Control-Request-Method: POST\r\n\r\n"
    ));
    assert!(!is_preflight(
        b"OPTIONS /\xff HTTP/1.1\r\nAccess-Control-Request-Method: POST\r\n\r\n"
    ));
    assert!(!is_preflight(b"OPTIONS"));
}

#[test]
fn preflight_answer_is_fixed() {
    let answer = cors_preflight_response();
    assert!(answer.starts_with("HTTP/1.1 204 No Content\r\n"));
    assert!(answer.contains("Access-Control-Max-Age: 86400\r\n"));
    assert!(answer.ends_with("Connection: close\r\n\r\n"));
    assert_eq!(STAR_TLS_EXTENSION_TYPE, 65280);
    assert_eq!(MAX_HEADER_SIZE, 64 * 1024);
}

#[test]
fn parses_unsigned_numbers_as_std_does() {
    for text in ["0", "8081", "+7", "65535", "65536", "", "+", "-1", "1 ", "12a", "0000042"] {
        assert_eq!(
            parse_unsigned_u64(text, 65535),
            text.parse::<u16>().ok().map(u64::from),
            "{text}"
        );
    }
    for text in ["18446744073709551615", "18446744073709551616", "99999999999999999999"] {
        assert_eq!(parse_unsigned_u64(text, u64::MAX), text.parse::<u64>().ok(), "{text}");
    }
}

#[test]
fn proxy_configuration_defaults() {
    let config = ProxyConfig::from_values(None, None, None, None, None, None);
    assert_eq!(config.listen_addr, "127.0.0.1:18080");
    assert_eq!(config.api_base, "http://127.0.0.1:8080");
    assert_eq!(config.upstream_host, "localhost");
    assert_eq!(config.upstream_port, 8081);
    assert_eq!(config.upstream_sni, "localhost");
    assert!(config.insecure_tls);
    assert_eq!(config.max_count, 10);

    let config = ProxyConfig::from_values(
        Some("0.0.0.0:1".to_string()),
        Some("http://api".to_string()),
        Some("up".to_string()),
        Some("443".to_string()),
        None,
        Some("not a number".to_string()),
    );
    assert_eq!(config.upstream_sni, "up");
    assert_eq!(config.upstream_port, 443);
    assert_eq!(config.max_count, 10);
    let config = ProxyConfig::from_values(None, None, None, Some("70000".to_string()), Some("sni".to_string()), Some("3".to_string()));
    assert_eq!(config.upstream_port, 8081);
    assert_eq!(config.upstream_sni, "sni");
    assert_eq!(config.max_count, 3);
}

#[test]
fn truthy_settings() {
    assert!(truthy(Some("1")));
    assert!(truthy(Some(" yes ")));
    assert!(truthy(Some("falsey")));
    assert!(!truthy(Some("0")));
    assert!(!truthy(Some(" FaLsE\n")));
    assert!(!truthy(Some("   ")));
    assert!(!truthy(None));
}

#[test]
fn registration_and_token_budget() {
    let enclave = Enclave::new(2, [3u8; 32], [4u8; 32]).unwrap();
    // the public key endpoint
    let api = PublicKeyApi::from_public_key(enclave.public_key());
    let (status, text) = api.handle();
    assert_eq!(status, 200);
    assert_eq!(text, URL_SAFE.encode(enclave.public_key()));
    let key = public_key_from_text(&format!(" {text}\n")).unwrap();
    assert_eq!(key, enclave.public_key());

    let client = SecureChannelClient::new(key).unwrap();
    let mut user = User::new(2, client);
    let (request_text, shared_key) = registration_request(&user).unwrap();
    // the registration endpoint
    let request = decode_issue_request(request_text.as_bytes()).expect("base64 body");
    let reply = enclave.issue_cred(&request);
    let (status, reply_text) = issue_response::<()>(Ok(reply));
    assert_eq!(status, 200);
    let cred = receive_registration(&mut user, &reply_text, &shared_key).unwrap();
    assert_eq!(user.credential.map(|c| c.uid), Some(cred.uid));

    let mut state = StarAuthState::new(user, 5);
    let first = state.token_request(5).unwrap();
    let second = state.token_request(5).unwrap();
    assert_eq!(
        state.token_request(5),
        Err(TokenRequestError::LimitReached { max: 2, period: 5 })
    );
    assert_eq!(state.counter, 2);
    for envelope in [first, second] {
        let token = enclave.issue_token(&envelope, 5u64.to_be_bytes()).unwrap();
        assert_eq!(token.len(), 32);
    }
    // a new period starts the count again
    assert!(state.token_request(6).is_ok());
    assert_eq!(state.counter, 1);
    assert_eq!(state.period, 6);
}

#[test]
fn registration_errors() {
    assert!(matches!(public_key_from_text("***"), Err(RegisterError::Base64(_))));
    assert_eq!(
        public_key_from_text(&URL_SAFE.encode([1u8; 31])),
        Err(RegisterError::PublicKeyLength)
    );
    let client = SecureChannelClient::new([1u8; 32]).unwrap();
    let mut user = User::new(1, client);
    assert_eq!(
        try_receive_registration(&mut user, &URL_SAFE.encode([0u8; 40]), &[2u8; 32]).err(),
        Some(RegisterError::Credential)
    );
    assert!(user.credential.is_none());
    assert!(decode_issue_request(b"%%%").is_none());
    let (status, body) = issue_response::<u8>(Err(3));
    assert_eq!(status, 500);
    assert!(body.is_empty());
}

#[test]
fn requests_are_planned_and_heads_read() {
    assert!(matches!(
        plan_request(b"OPTIONS / HTTP/1.1\r\nAccess-Control-Request-Method: PUT\r\n\r\n"),
        RequestPlan::Preflight
    ));
    match plan_request(b"GET / HTTP/1.1\r\nConnection: keep-alive\r\n\r\n") {
        RequestPlan::Forward(head) => {
            assert_eq!(head, b"GET / HTTP/1.1\r\nConnection: close\r\n\r\n".to_vec())
        }
        RequestPlan::Preflight => panic!("not a preflight"),
    }
    assert!(matches!(head_step(0, b"GET"), HeadStep::Closed));
    assert!(matches!(head_step(3, b"GET"), HeadStep::ReadMore));
    assert!(matches!(head_step(4, b"GET /\r\n\r\n"), HeadStep::Complete));
    assert!(matches!(head_step(1, &vec![b'a'; MAX_HEADER_SIZE + 1]), HeadStep::TooLarge));
    assert!(matches!(head_step(1, &vec![b'a'; MAX_HEADER_SIZE]), HeadStep::ReadMore));
}

#[test]
fn register_builds_the_authentication_state() {
    let enclave = Enclave::new(3, [5u8; 32], [6u8; 32]).unwrap();
    let client = SecureChannelClient::new(enclave.public_key()).unwrap();
    let user = User::new(3, client);
    let (request_text, shared_key) = registration_request(&user).unwrap();
    let request = decode_issue_request(request_text.as_bytes()).expect("base64 body");
    assert_eq!(request.len(), 32 + 32 + 32 + 32 + 16);
    let (_, reply_text) = issue_response::<()>(Ok(enclave.issue_cred(&request)));
    let state = StarAuthState::register(user, &reply_text, &shared_key, 42).unwrap();
    assert_eq!(state.counter, 0);
    assert_eq!(state.period, 42);
    assert!(state.user.credential.is_some());

    let client = SecureChannelClient::new([1u8; 32]).unwrap();
    let user = User::new(1, client);
    assert!(matches!(
        StarAuthState::register(user, "***", &[2u8; 32], 1),
        Err(RegisterError::Base64(_))
    ));
    let client = SecureChannelClient::new([1u8; 32]).unwrap();
    let user = User::new(1, client);
    assert!(matches!(
        StarAuthState::try_register(user, &URL_SAFE.encode([0u8; 40]), &[2u8; 32], 1),
        Err(RegisterError::Credential)
    ));
}

#[test]
fn envelopes_carry_the_plaintext_and_its_tag() {
    let client = SecureChannelClient::new([8u8; 32]).unwrap();
    let env = client.send_hpke(b"hello").unwrap();
    assert_eq!(env.len(), 32 + 32 + 32 + 5 + 16);
}

#[test]
fn public_key_text_must_be_padded_base64() {
    assert!(matches!(
        public_key_from_text(&URL_SAFE_NO_PAD.encode([1u8; 32])),
        Err(RegisterError::Base64(_))
    ));
    assert_eq!(public_key_from_text(&URL_SAFE.encode([1u8; 32])), Ok([1u8; 32]));
}
