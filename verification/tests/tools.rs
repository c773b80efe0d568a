use base64::engine::general_purpose::{URL_SAFE, URL_SAFE_NO_PAD};
use base64::Engine;
use star::tools::dcap::{
    dcap_status_is_advisory, dcap_status_is_ok, dcap_status_name, validate_dcap_status,
    verify_quote_locally, QuoteVerificationPolicy, TcbStatus,
};
use star::tools::hex::{hex, parse_hex_array};
use star::tools::input::{decode_base64, decode_quote_input};
use star::tools::quote::{
    parse_quote, public_key_from_report_data, verify_policy, MEASUREMENT_LEN, PUBLIC_KEY_LEN,
    SGX_QL_ALG_ECDSA_P256,
};

const QUOTE_HEADER_LEN: usize = 48;
const SGX_REPORT_BODY_LEN: usize = 384;
const QUOTE_V3: u16 = 3;
const AUTH_DATA_V3_LEN: usize = 64 + 64 + 384 + 64 + 2 + 2 + 4;

fn fake_quote(
    mrenclave: [u8; MEASUREMENT_LEN],
    mrsigner: [u8; MEASUREMENT_LEN],
    public_key: [u8; PUBLIC_KEY_LEN],
    debug: bool,
) -> Vec<u8> {
    let auth_data_len_offset = QUOTE_HEADER_LEN + SGX_REPORT_BODY_LEN;
    let mut quote = vec![0u8; auth_data_len_offset + 4 + AUTH_DATA_V3_LEN];
    quote[0..2].copy_from_slice(&QUOTE_V3.to_le_bytes());
    quote[2..4].copy_from_slice(&SGX_QL_ALG_ECDSA_P256.to_le_bytes());

    let report = QUOTE_HEADER_LEN;
    let flags = if debug { 0x2u64 } else { 0 };
    quote[report + 48..report + 56].copy_from_slice(&flags.to_le_bytes());
    quote[report + 64..report + 96].copy_from_slice(&mrenclave);
    quote[report + 128..report + 160].copy_from_slice(&mrsigner);
    quote[report + 320..report + 352].copy_from_slice(&public_key);
    quote[auth_data_len_offset..auth_data_len_offset + 4]
        .copy_from_slice(&(AUTH_DATA_V3_LEN as u32).to_le_bytes());
    quote
}

#[test]
fn parses_quote_report_fields() {
    let mrenclave = [1u8; MEASUREMENT_LEN];
    let mrsigner = [2u8; MEASUREMENT_LEN];
    let public_key = [3u8; PUBLIC_KEY_LEN];

    let parsed =
        parse_quote(&fake_quote(mrenclave, mrsigner, public_key, true)).expect("parse quote");

    assert_eq!(parsed.mrenclave, mrenclave);
    assert_eq!(parsed.mrsigner, mrsigner);
    assert_eq!(
        public_key_from_report_data(&parsed).expect("public key"),
        public_key
    );
    assert!(parsed.debug);
}

#[test]
fn policy_rejects_untrusted_debug_quote() {
    let mrenclave = [1u8; MEASUREMENT_LEN];
    let mrsigner = [2u8; MEASUREMENT_LEN];
    let public_key = [3u8; PUBLIC_KEY_LEN];
    let parsed =
        parse_quote(&fake_quote(mrenclave, mrsigner, public_key, true)).expect("parse quote");

    let err = verify_policy(&parsed, &mrsigner, Some(&mrenclave), false)
        .expect_err("debug quote should be rejected");

    assert!(err.contains("debug enclave"));
}

#[test]
fn policy_checks_signer_then_enclave() {
    let parsed = parse_quote(&fake_quote([1u8; 32], [2u8; 32], [3u8; 32], false)).unwrap();
    assert!(!parsed.debug);
    assert_eq!(verify_policy(&parsed, &[2u8; 32], Some(&[1u8; 32]), false), Ok(()));
    assert_eq!(verify_policy(&parsed, &[2u8; 32], None, false), Ok(()));
    assert_eq!(
        verify_policy(&parsed, &[9u8; 32], Some(&[1u8; 32]), true),
        Err("MRSIGNER does not match the trusted signer".to_string())
    );
    assert_eq!(
        verify_policy(&parsed, &[2u8; 32], Some(&[9u8; 32]), true),
        Err("MRENCLAVE does not match the trusted enclave measurement".to_string())
    );
    let debug = parse_quote(&fake_quote([1u8; 32], [2u8; 32], [3u8; 32], true)).unwrap();
    assert_eq!(verify_policy(&debug, &[2u8; 32], None, true), Ok(()));
}

#[test]
fn report_data_must_be_key_and_zero_padding() {
    let mut quote = fake_quote([1u8; 32], [2u8; 32], [3u8; 32], false);
    quote[QUOTE_HEADER_LEN + 320 + 40] = 1;
    let parsed = parse_quote(&quote).unwrap();
    assert!(public_key_from_report_data(&parsed).is_err());
    assert!(parse_quote(&[0u8; 10]).is_err());
}

#[test]
fn hex_round_trips_and_accepts_separators() {
    let parsed = parse_hex_array::<4>("0x12:34_56 78", "test").expect("parse hex");
    assert_eq!(parsed, [0x12, 0x34, 0x56, 0x78]);
    assert_eq!(hex(&parsed), "12345678");
}

#[test]
fn hex_rejects_bad_digits_and_lengths() {
    assert!(parse_hex_array::<2>("12345", "x").is_err());
    assert!(parse_hex_array::<2>("12g4", "x").is_err());
    assert_eq!(parse_hex_array::<2>("  0XaBcD \n", "x"), Ok([0xab, 0xcd]));
    let bytes = [0u8, 1, 0x7f, 0x80, 0xff];
    assert_eq!(hex(&bytes), "00017f80ff");
    assert_eq!(parse_hex_array::<5>(&hex(&bytes), "x"), Ok(bytes));
}

#[test]
fn names_dcap_statuses() {
    assert_eq!(dcap_status_name(TcbStatus::UpToDate), "UpToDate");
    assert_eq!(dcap_status_name(TcbStatus::OutOfDate), "OutOfDate");
    assert!(dcap_status_is_advisory(TcbStatus::OutOfDate));
    assert!(!dcap_status_is_advisory(TcbStatus::Revoked));
}

#[test]
fn dcap_status_validation() {
    assert!(dcap_status_is_ok(TcbStatus::UpToDate));
    assert!(!dcap_status_is_ok(TcbStatus::OutOfDate));
    assert_eq!(validate_dcap_status(TcbStatus::UpToDate, false), Ok(()));
    assert!(validate_dcap_status(TcbStatus::OutOfDate, false).is_err());
    assert_eq!(validate_dcap_status(TcbStatus::OutOfDate, true), Ok(()));
    assert!(validate_dcap_status(TcbStatus::Revoked, true).is_err());
}

#[test]
fn extracts_base64_quote_from_startup_log_line() {
    let quote = fake_quote(
        [1u8; MEASUREMENT_LEN],
        [2u8; MEASUREMENT_LEN],
        [3u8; PUBLIC_KEY_LEN],
        false,
    );
    let input = format!(
        "STAR_ATTESTATION_QUOTE_BASE64={}\n",
        URL_SAFE.encode(&quote)
    );

    let decoded = decode_quote_input(input.as_bytes()).expect("decode quote input");

    assert_eq!(decoded, quote);
}

#[test]
fn extracts_padded_base64_quote_from_startup_log_line() {
    let mut quote = fake_quote(
        [1u8; MEASUREMENT_LEN],
        [2u8; MEASUREMENT_LEN],
        [3u8; PUBLIC_KEY_LEN],
        false,
    );
    quote.push(9);
    let input = format!(
        "STAR_ATTESTATION_QUOTE_BASE64={}\n",
        URL_SAFE.encode(&quote)
    );

    let decoded = decode_quote_input(input.as_bytes()).expect("decode quote input");

    assert_eq!(decoded, quote);
}

#[test]
fn quote_input_may_be_raw_or_plain_base64() {
    let quote = fake_quote([4u8; 32], [5u8; 32], [6u8; 32], false);
    assert_eq!(decode_quote_input(&quote), Ok(quote.clone()));
    let text = URL_SAFE_NO_PAD.encode(&quote);
    assert_eq!(decode_quote_input(text.as_bytes()), Ok(quote.clone()));
    assert!(decode_quote_input(b"not a quote").is_err());
}

#[test]
fn decode_base64_trims_and_accepts_both_paddings() {
    assert_eq!(decode_base64("  AQID\n"), Ok(vec![1, 2, 3]));
    assert_eq!(decode_base64("AQI="), Ok(vec![1, 2]));
    assert_eq!(decode_base64("AQI"), Ok(vec![1, 2]));
    assert!(decode_base64("A").is_err());
    assert_eq!(decode_base64("_-8"), Ok(vec![0xff, 0xef]));
}

#[test]
fn hex_errors_name_the_input() {
    assert_eq!(
        parse_hex_array::<2>("123456", "k"),
        Err("k must be 4 hex characters for 2 bytes, got 6".to_string())
    );
    assert_eq!(
        parse_hex_array::<2>("12g4", "x"),
        Err("x contains non-hex character 'g'".to_string())
    );
}

#[test]
fn hex_reads_the_same_in_every_form() {
    let plain = parse_hex_array::<3>("a1b2c3", "k");
    assert_eq!(plain, Ok([0xa1, 0xb2, 0xc3]));
    assert_eq!(parse_hex_array::<3>("0xa1b2c3", "k"), plain);
    assert_eq!(parse_hex_array::<3>("0XA1B2C3", "k"), plain);
    assert_eq!(parse_hex_array::<3>(" a1:B2_c3\t", "k"), plain);
    assert_eq!(parse_hex_array::<3>("0x a1 b2 c3", "k"), plain);
}

#[test]
fn quote_input_errors() {
    let err = decode_quote_input(&[0xff, 0xfe]).unwrap_err();
    assert!(err.starts_with("stdin is neither a raw quote nor UTF-8 base64 text: "));
    assert!(err.len() > "stdin is neither a raw quote nor UTF-8 base64 text: ".len());
    assert_eq!(
        decode_quote_input(b"not a quote"),
        Err("could not find a parseable SGX quote in stdin".to_string())
    );
}

#[test]
fn quote_parse_errors() {
    let err = parse_quote(&[0u8; 10]).unwrap_err();
    assert!(err.starts_with("parse DCAP quote: "));
}

#[test]
fn local_quote_verification_reports_each_refusal() {
    let quote = fake_quote([1u8; 32], [2u8; 32], [3u8; 32], false);
    let policy = QuoteVerificationPolicy {
        expected_mrsigner: &[2u8; 32],
        expected_mrenclave: Some(&[1u8; 32]),
        expected_public_key: Some(&[3u8; 32]),
        allow_debug: false,
        allow_advisory: false,
        pccs_url: None,
    };
    let (parsed, pk) = verify_quote_locally(&quote, &policy).expect("accepted");
    assert_eq!(pk, [3u8; 32]);
    assert_eq!(parsed.mrsigner, [2u8; 32]);

    let other_key = QuoteVerificationPolicy { expected_public_key: Some(&[4u8; 32]), ..policy };
    assert_eq!(
        verify_quote_locally(&quote, &other_key).unwrap_err(),
        "attested public key does not match expected public key"
    );
    let other_signer = QuoteVerificationPolicy { expected_mrsigner: &[9u8; 32], ..policy };
    assert_eq!(
        verify_quote_locally(&quote, &other_signer).unwrap_err(),
        "MRSIGNER does not match the trusted signer"
    );
    let mut padded = quote.clone();
    padded[QUOTE_HEADER_LEN + 320 + 40] = 1;
    assert_eq!(
        verify_quote_locally(&padded, &policy).unwrap_err(),
        "report_data is not public_key || zero padding"
    );
    assert!(verify_quote_locally(&[0u8; 10], &policy)
        .unwrap_err()
        .starts_with("parse DCAP quote: "));
}
