use parity_scale_codec::Decode;
use vstd::prelude::*;
use vstd::string::*;

verus! {

pub const CHALLENGE_LEN: usize = 64;
pub const MEASUREMENT_LEN: usize = 32;
pub const PUBLIC_KEY_LEN: usize = 32;

/// The attestation key type of an ECDSA P-256 quote.
pub const SGX_QL_ALG_ECDSA_P256: u16 = 2;

/// The fields of an SGX enclave report that the checks read.
pub struct SgxReportFields {
    pub mr_enclave: [u8; 32],
    pub mr_signer: [u8; 32],
    pub report_data: [u8; 64],
    pub attributes: [u8; 16],
}

/// A decoded quote: its attestation key type and, for an SGX enclave, its
/// report.
pub struct DecodedQuote {
    pub attestation_key_type: u16,
    pub sgx_report: Option<SgxReportFields>,
}

/// The plain values of a decoded quote: the attestation key type and, for an
/// SGX enclave, `(mr_enclave, mr_signer, report_data, attributes)`.
pub open spec fn decoded_view(d: DecodedQuote) -> (u16, Option<(Seq<u8>, Seq<u8>, Seq<u8>, Seq<u8>)>) {
    (
        d.attestation_key_type,
        match d.sgx_report {
            Some(r) => Some((r.mr_enclave@, r.mr_signer@, r.report_data@, r.attributes@)),
            None => None,
        },
    )
}

/// What `dcap_qvl`'s SCALE decoding of a quote gives, as plain values, or
/// `None` when the bytes do not decode.
pub uninterp spec fn dcap_quote_decode(quote: Seq<u8>) -> Option<(u16, Option<(Seq<u8>, Seq<u8>, Seq<u8>, Seq<u8>)>)>;

/// The message of the SCALE decoding error for bytes that do not decode as a
/// quote.
pub uninterp spec fn dcap_decode_error(quote: Seq<u8>) -> Seq<char>;

/// `<dcap_qvl::quote::Quote as parity_scale_codec::Decode>::decode`, with the
/// header's attestation key type and the SGX report (`Report::as_sgx`) read out;
/// the error is the decoder's message, which depends on the bytes alone.
#[verifier::external_body]
fn decode_dcap_quote(quote: &[u8]) -> (r: Result<DecodedQuote, String>)
    ensures
        r is Ok <==> dcap_quote_decode(quote@) is Some,
        r matches Ok(d) ==> dcap_quote_decode(quote@) == Some(decoded_view(d)),
        r matches Err(m) ==> m@ == dcap_decode_error(quote@),
{
    match dcap_qvl::quote::Quote::decode(&mut &quote[..]) {
        Ok(q) => Ok(DecodedQuote {
            attestation_key_type: q.header.attestation_key_type,
            sgx_report: match q.report.as_sgx() {
                Some(report) => Some(SgxReportFields {
                    mr_enclave: report.mr_enclave,
                    mr_signer: report.mr_signer,
                    report_data: report.report_data,
                    attributes: report.attributes,
                }),
                None => None,
            },
        }),
        Err(err) => Err(err.to_string()),
    }
}

/// The identity of the enclave that a quote attests.
#[derive(Debug, Clone, PartialEq, Eq)]
pub struct ParsedQuote {
    pub mrenclave: [u8; MEASUREMENT_LEN],
    pub mrsigner: [u8; MEASUREMENT_LEN],
    pub report_data: [u8; CHALLENGE_LEN],
    pub debug: bool,
}

/// The enclave identity that a quote's bytes parse to: an ECDSA P-256 SGX
/// quote, its measurements, report data and debug flag (bit 1 of the first
/// attribute byte).
pub open spec fn parsed_quote(quote: Seq<u8>) -> Option<(Seq<u8>, Seq<u8>, Seq<u8>, bool)> {
    match dcap_quote_decode(quote) {
        Some(decoded) => identity_of(decoded),
        None => None,
    }
}

/// The values of a parsed quote.
pub open spec fn parsed_view(p: ParsedQuote) -> (Seq<u8>, Seq<u8>, Seq<u8>, bool) {
    (p.mrenclave@, p.mrsigner@, p.report_data@, p.debug)
}

/// A message made of a fixed text and a variable one.
fn message(prefix: &str, detail: &str) -> (r: String)
    ensures
        r@ == prefix@ + detail@,
{
    let mut out = String::from_str(prefix);
    out.append(detail);
    out
}

/// The enclave identity of a decoded quote: an ECDSA P-256 quote of an SGX
/// enclave, its measurements, report data and debug flag (bit 1 of the first
/// attribute byte).
pub open spec fn identity_of(decoded: (u16, Option<(Seq<u8>, Seq<u8>, Seq<u8>, Seq<u8>)>)) -> Option<
    (Seq<u8>, Seq<u8>, Seq<u8>, bool),
> {
    match decoded {
        (key_type, Some((mr_enclave, mr_signer, report_data, attributes))) => if key_type == 2 {
            Some((mr_enclave, mr_signer, report_data, (attributes[0] & 2u8) != 0u8))
        } else {
            None
        },
        _ => None,
    }
}

/// Reads the enclave identity out of a decoded quote.
pub fn identity_from_decoded(decoded: DecodedQuote) -> (r: Result<ParsedQuote, String>)
    ensures
        r is Ok <==> identity_of(decoded_view(decoded)) is Some,
        r matches Ok(p) ==> identity_of(decoded_view(decoded)) == Some(parsed_view(p)),
        decoded.attestation_key_type != SGX_QL_ALG_ECDSA_P256 ==> (r matches Err(e) && e@
            == "quote attestation key is not ECDSA/P-256"@),
        decoded.attestation_key_type == SGX_QL_ALG_ECDSA_P256 && decoded.sgx_report is None ==> (
        r matches Err(e) && e@ == "quote is not for an SGX enclave"@),
{
    if decoded.attestation_key_type != SGX_QL_ALG_ECDSA_P256 {
        return Err(String::from_str("quote attestation key is not ECDSA/P-256"));
    }
    let report = match decoded.sgx_report {
        Some(report) => report,
        None => return Err(String::from_str("quote is not for an SGX enclave")),
    };
    Ok(ParsedQuote {
        mrenclave: report.mr_enclave,
        mrsigner: report.mr_signer,
        report_data: report.report_data,
        debug: report.attributes[0] & 0x02 != 0,
    })
}

/// Why bytes that are no ECDSA P-256 SGX quote fail to parse.
pub open spec fn parse_error_of(quote: Seq<u8>) -> Seq<char> {
    match dcap_quote_decode(quote) {
        None => "parse DCAP quote: "@ + dcap_decode_error(quote),
        Some((key_type, _)) => if key_type != 2 {
            "quote attestation key is not ECDSA/P-256"@
        } else {
            "quote is not for an SGX enclave"@
        },
    }
}

/// Parses a DCAP quote and reads the enclave identity out of its SGX report.
pub fn parse_quote(quote: &[u8]) -> (r: Result<ParsedQuote, String>)
    ensures
        r is Ok <==> parsed_quote(quote@) is Some,
        r matches Ok(p) ==> parsed_quote(quote@) == Some(parsed_view(p)),
        r matches Err(e) ==> e@ == parse_error_of(quote@),
{
    let decoded = match decode_dcap_quote(quote) {
        Ok(decoded) => decoded,
        Err(err) => return Err(message("parse DCAP quote: ", err.as_str())),
    };
    identity_from_decoded(decoded)
}

/// The public key that report data binds: the first 32 bytes when the rest
/// is zero.
pub open spec fn report_data_public_key(report_data: Seq<u8>) -> Option<Seq<u8>> {
    if forall|k: int| 32 <= k < report_data.len() ==> report_data[k] == 0u8 {
        Some(report_data.subrange(0, 32))
    } else {
        None
    }
}

pub fn public_key_from_report_data(parsed: &ParsedQuote) -> (r: Result<[u8; PUBLIC_KEY_LEN], String>)
    ensures
        r is Ok <==> report_data_public_key(parsed.report_data@) is Some,
        r matches Ok(k) ==> report_data_public_key(parsed.report_data@) == Some(k@),
        r matches Err(e) ==> e@ == "report_data is not public_key || zero padding"@,
{
    let mut k: usize = PUBLIC_KEY_LEN;
    while k < CHALLENGE_LEN
        invariant
            PUBLIC_KEY_LEN <= k <= CHALLENGE_LEN,
            forall|j: int| 32 <= j < k ==> parsed.report_data@[j] == 0u8,
        decreases CHALLENGE_LEN - k,
    {
        if parsed.report_data[k] != 0 {
            return Err(String::from_str("report_data is not public_key || zero padding"));
        }
        k = k + 1;
    }
    Ok(crate::ct::bytes::array_at(&parsed.report_data, 0))
}

/// Why a quote fails the local policy, if it does: a foreign signer, another
/// enclave than the expected one, or a debug enclave when those are not
/// allowed.
pub open spec fn policy_verdict(
    mrenclave: Seq<u8>,
    mrsigner: Seq<u8>,
    debug: bool,
    expected_mrsigner: Seq<u8>,
    expected_mrenclave: Option<Seq<u8>>,
    allow_debug: bool,
) -> Option<Seq<char>> {
    if mrsigner != expected_mrsigner {
        Some("MRSIGNER does not match the trusted signer"@)
    } else if expected_mrenclave matches Some(m) && mrenclave != m {
        Some("MRENCLAVE does not match the trusted enclave measurement"@)
    } else if debug && !allow_debug {
        Some("debug enclave is not trusted; pass --allow-debug only for development"@)
    } else {
        None
    }
}

/// The expected enclave measurement, as bytes.
pub open spec fn option_view(o: Option<&[u8; MEASUREMENT_LEN]>) -> Option<Seq<u8>> {
    match o {
        Some(m) => Some(m@),
        None => None,
    }
}

pub fn verify_policy(
    parsed: &ParsedQuote,
    expected_mrsigner: &[u8; MEASUREMENT_LEN],
    expected_mrenclave: Option<&[u8; MEASUREMENT_LEN]>,
    allow_debug: bool,
) -> (r: Result<(), String>)
    ensures
        match policy_verdict(
            parsed.mrenclave@,
            parsed.mrsigner@,
            parsed.debug,
            expected_mrsigner@,
            option_view(expected_mrenclave),
            allow_debug,
        ) {
            None => r is Ok,
            Some(msg) => r matches Err(e) && e@ == msg,
        },
{
    if !crate::ct::cmp::ct_eq(&parsed.mrsigner, expected_mrsigner) {
        return Err(String::from_str("MRSIGNER does not match the trusted signer"));
    }
    match expected_mrenclave {
        Some(expected) => {
            if !crate::ct::cmp::ct_eq(&parsed.mrenclave, expected) {
                return Err(String::from_str("MRENCLAVE does not match the trusted enclave measurement"));
            }
        },
        None => {},
    }
    if parsed.debug && !allow_debug {
        return Err(String::from_str("debug enclave is not trusted; pass --allow-debug only for development"));
    }
    Ok(())
}

/// What `inspect` shows of a quote: the identity it attests and the public
/// key its report data binds.
pub fn quote_summary(quote: &[u8]) -> (r: Result<(ParsedQuote, [u8; PUBLIC_KEY_LEN]), String>)
    ensures
        r is Ok <==> (parsed_quote(quote@) matches Some(p) && report_data_public_key(p.2) is Some),
        r matches Ok((p, k)) ==> parsed_quote(quote@) == Some(parsed_view(p)) && report_data_public_key(
            p.report_data@,
        ) == Some(k@),
{
    let parsed = match parse_quote(quote) {
        Ok(p) => p,
        Err(e) => return Err(e),
    };
    match public_key_from_report_data(&parsed) {
        Ok(k) => Ok((parsed, k)),
        Err(e) => Err(e),
    }
}

} // verus!
