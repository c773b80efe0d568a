use vstd::prelude::*;
use vstd::string::*;

use crate::tools::quote::{
    option_view, parse_error_of, parse_quote, parsed_quote, parsed_view, policy_verdict, public_key_from_report_data,
    report_data_public_key, ParsedQuote, MEASUREMENT_LEN, PUBLIC_KEY_LEN,
};

verus! {

/// The TCB status that DCAP quote verification reports.
#[derive(Debug, Clone, Copy, PartialEq, Eq, Structural)]
pub enum TcbStatus {
    UpToDate,
    OutOfDateConfigurationNeeded,
    OutOfDate,
    ConfigurationAndSWHardeningNeeded,
    ConfigurationNeeded,
    SWHardeningNeeded,
    Revoked,
    TDRelaunchAdvised,
    TDRelaunchAdvisedConfigurationNeeded,
}

/// The outcome of DCAP verification: the merged status, its advisories, and
/// the statuses of the quoting enclave and of the platform.
#[derive(Debug)]
pub struct DcapVerification {
    pub status: TcbStatus,
    pub advisory_ids: Vec<String>,
    pub qe_status: TcbStatus,
    pub platform_status: TcbStatus,
}

/// A quote that passed the local policy and DCAP verification.
#[derive(Debug)]
pub struct VerifiedQuote {
    pub parsed: ParsedQuote,
    pub public_key: [u8; PUBLIC_KEY_LEN],
    pub dcap: DcapVerification,
}

/// What the verifier of a quote expects of it.
pub struct QuoteVerificationPolicy<'a> {
    pub expected_mrsigner: &'a [u8; MEASUREMENT_LEN],
    pub expected_mrenclave: Option<&'a [u8; MEASUREMENT_LEN]>,
    pub expected_public_key: Option<&'a [u8; PUBLIC_KEY_LEN]>,
    pub allow_debug: bool,
    pub allow_advisory: bool,
    pub pccs_url: Option<&'a str>,
}

pub open spec fn status_name(status: TcbStatus) -> Seq<char> {
    match status {
        TcbStatus::UpToDate => "UpToDate"@,
        TcbStatus::ConfigurationNeeded => "ConfigurationNeeded"@,
        TcbStatus::SWHardeningNeeded => "SWHardeningNeeded"@,
        TcbStatus::ConfigurationAndSWHardeningNeeded => "ConfigurationAndSWHardeningNeeded"@,
        TcbStatus::OutOfDate => "OutOfDate"@,
        TcbStatus::OutOfDateConfigurationNeeded => "OutOfDateConfigurationNeeded"@,
        TcbStatus::Revoked => "Revoked"@,
        TcbStatus::TDRelaunchAdvised => "TDRelaunchAdvised"@,
        TcbStatus::TDRelaunchAdvisedConfigurationNeeded => "TDRelaunchAdvisedConfigurationNeeded"@,
    }
}

pub fn dcap_status_name(status: TcbStatus) -> (r: &'static str)
    ensures
        r@ == status_name(status),
{
    match status {
        TcbStatus::UpToDate => "UpToDate",
        TcbStatus::ConfigurationNeeded => "ConfigurationNeeded",
        TcbStatus::SWHardeningNeeded => "SWHardeningNeeded",
        TcbStatus::ConfigurationAndSWHardeningNeeded => "ConfigurationAndSWHardeningNeeded",
        TcbStatus::OutOfDate => "OutOfDate",
        TcbStatus::OutOfDateConfigurationNeeded => "OutOfDateConfigurationNeeded",
        TcbStatus::Revoked => "Revoked",
        TcbStatus::TDRelaunchAdvised => "TDRelaunchAdvised",
        TcbStatus::TDRelaunchAdvisedConfigurationNeeded => "TDRelaunchAdvisedConfigurationNeeded",
    }
}

pub fn dcap_status_is_ok(status: TcbStatus) -> (r: bool)
    ensures
        r == (status == TcbStatus::UpToDate),
{
    match status {
        TcbStatus::UpToDate => true,
        _ => false,
    }
}

/// The statuses that an advisory may accept: the platform needs configuration
/// or software hardening, or is out of date.
pub open spec fn is_advisory(status: TcbStatus) -> bool {
    match status {
        TcbStatus::ConfigurationNeeded
        | TcbStatus::SWHardeningNeeded
        | TcbStatus::ConfigurationAndSWHardeningNeeded
        | TcbStatus::OutOfDate
        | TcbStatus::OutOfDateConfigurationNeeded => true,
        _ => false,
    }
}

pub fn dcap_status_is_advisory(status: TcbStatus) -> (r: bool)
    ensures
        r == is_advisory(status),
{
    match status {
        TcbStatus::ConfigurationNeeded
        | TcbStatus::SWHardeningNeeded
        | TcbStatus::ConfigurationAndSWHardeningNeeded
        | TcbStatus::OutOfDate
        | TcbStatus::OutOfDateConfigurationNeeded => true,
        _ => false,
    }
}

/// Accepts an up-to-date platform, and an advisory status when advisories are
/// allowed.
pub fn validate_dcap_status(status: TcbStatus, allow_advisory: bool) -> (r: Result<(), String>)
    ensures
        r is Ok <==> (status == TcbStatus::UpToDate || (allow_advisory && is_advisory(status))),
        r matches Err(e) ==> e@ == "quote TCB status is "@ + status_name(status),
{
    if dcap_status_is_ok(status) || (allow_advisory && dcap_status_is_advisory(status)) {
        return Ok(());
    }
    let mut msg = String::from_str("quote TCB status is ");
    msg.append(dcap_status_name(status));
    Err(msg)
}

/// Why the local part of quote verification refuses a quote, or `None` when
/// it accepts it: the quote must parse, its report data must bind a public
/// key, that key must be the expected one when one is expected, and the
/// identity must pass the policy.
pub open spec fn local_verification_error(
    quote: Seq<u8>,
    expected_public_key: Option<Seq<u8>>,
    expected_mrsigner: Seq<u8>,
    expected_mrenclave: Option<Seq<u8>>,
    allow_debug: bool,
) -> Option<Seq<char>> {
    match parsed_quote(quote) {
        None => Some(parse_error_of(quote)),
        Some(p) => match report_data_public_key(p.2) {
            None => Some("report_data is not public_key || zero padding"@),
            Some(pk) => if expected_public_key matches Some(e) && pk != e {
                Some("attested public key does not match expected public key"@)
            } else {
                policy_verdict(p.0, p.1, p.3, expected_mrsigner, expected_mrenclave, allow_debug)
            },
        },
    }
}

/// The local part of quote verification: the quote parses, its report data
/// binds a public key (the expected one, when one is expected), and its
/// identity passes the policy. Returns the identity and the public key.
pub fn verify_quote_locally(quote: &[u8], policy: &QuoteVerificationPolicy<'_>) -> (r: Result<
    (ParsedQuote, [u8; PUBLIC_KEY_LEN]),
    String,
>)
    ensures
        r is Ok <==> (parsed_quote(quote@) matches Some(p) && report_data_public_key(p.2) matches Some(
            pk,
        ) && (policy.expected_public_key matches Some(e) ==> pk == e@) && policy_verdict(
            p.0,
            p.1,
            p.3,
            policy.expected_mrsigner@,
            option_view(policy.expected_mrenclave),
            policy.allow_debug,
        ) is None),
        r matches Ok((parsed, pk)) ==> parsed_quote(quote@) == Some(parsed_view(parsed))
            && report_data_public_key(parsed.report_data@) == Some(pk@),
        r matches Err(e) ==> local_verification_error(
            quote@,
            option_view(policy.expected_public_key),
            policy.expected_mrsigner@,
            option_view(policy.expected_mrenclave),
            policy.allow_debug,
        ) == Some(e@),
{
    let parsed = match parse_quote(quote) {
        Ok(parsed) => parsed,
        Err(e) => return Err(e),
    };
    let public_key = match public_key_from_report_data(&parsed) {
        Ok(pk) => pk,
        Err(e) => return Err(e),
    };
    match policy.expected_public_key {
        Some(expected) => {
            if !crate::ct::cmp::ct_eq(&public_key, expected) {
                return Err(String::from_str("attested public key does not match expected public key"));
            }
        },
        None => {},
    }
    match crate::tools::quote::verify_policy(
        &parsed,
        policy.expected_mrsigner,
        policy.expected_mrenclave,
        policy.allow_debug,
    ) {
        Ok(()) => {},
        Err(e) => return Err(e),
    }
    Ok((parsed, public_key))
}

/// The last step of quote verification: the DCAP status is accepted.
pub fn accept_dcap_verification(
    parsed: ParsedQuote,
    public_key: [u8; PUBLIC_KEY_LEN],
    dcap: DcapVerification,
    allow_advisory: bool,
) -> (r: Result<VerifiedQuote, String>)
    ensures
        r is Ok <==> (dcap.status == TcbStatus::UpToDate || (allow_advisory && is_advisory(dcap.status))),
        r matches Ok(v) ==> v.parsed == parsed && v.public_key == public_key && v.dcap == dcap,
{
    match validate_dcap_status(dcap.status, allow_advisory) {
        Ok(()) => Ok(VerifiedQuote { parsed, public_key, dcap }),
        Err(e) => Err(e),
    }
}

} // verus!
