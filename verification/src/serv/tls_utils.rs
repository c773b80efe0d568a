use vstd::prelude::*;

use crate::serv::filter::StarFilterErrorStatus;

verus! {

/// The TLS alerts that a refused ClientHello is answered with.
#[derive(Clone, Copy, PartialEq, Eq, Structural, Debug)]
pub enum TlsAlert {
    DecodeError,
    IllegalParameter,
    /// Any other alert, by its description code.
    Other(u8),
}

/// The alert for each way the filter refuses a token.
pub open spec fn alert_for(status: StarFilterErrorStatus) -> TlsAlert {
    match status {
        StarFilterErrorStatus::InvalidToken => TlsAlert::DecodeError,
        StarFilterErrorStatus::InvalidRoute => TlsAlert::IllegalParameter,
        StarFilterErrorStatus::DuplicatedToken => TlsAlert::IllegalParameter,
        StarFilterErrorStatus::Internal => TlsAlert::DecodeError,
    }
}

pub fn alert_for_filter_error(status: &StarFilterErrorStatus) -> (r: TlsAlert)
    ensures
        r == alert_for(*status),
{
    match status {
        StarFilterErrorStatus::InvalidToken => TlsAlert::DecodeError,
        StarFilterErrorStatus::InvalidRoute => TlsAlert::IllegalParameter,
        StarFilterErrorStatus::DuplicatedToken => TlsAlert::IllegalParameter,
        StarFilterErrorStatus::Internal => TlsAlert::DecodeError,
    }
}

/// The name of each refusal.
pub open spec fn filter_error_name_of(status: StarFilterErrorStatus) -> Seq<char> {
    match status {
        StarFilterErrorStatus::InvalidToken => "InvalidToken"@,
        StarFilterErrorStatus::InvalidRoute => "InvalidRoute"@,
        StarFilterErrorStatus::DuplicatedToken => "DuplicatedToken"@,
        StarFilterErrorStatus::Internal => "Internal"@,
    }
}

pub fn filter_error_name(status: &StarFilterErrorStatus) -> (r: &'static str)
    ensures
        r@ == filter_error_name_of(*status),
{
    match status {
        StarFilterErrorStatus::InvalidToken => "InvalidToken",
        StarFilterErrorStatus::InvalidRoute => "InvalidRoute",
        StarFilterErrorStatus::DuplicatedToken => "DuplicatedToken",
        StarFilterErrorStatus::Internal => "Internal",
    }
}

/// The name of an alert.
pub open spec fn alert_name_of(alert: TlsAlert) -> Seq<char> {
    match alert {
        TlsAlert::DecodeError => "DECODE_ERROR"@,
        TlsAlert::IllegalParameter => "ILLEGAL_PARAMETER"@,
        TlsAlert::Other(_) => "OTHER"@,
    }
}

pub fn alert_name(alert: TlsAlert) -> (r: &'static str)
    ensures
        r@ == alert_name_of(alert),
{
    match alert {
        TlsAlert::DecodeError => "DECODE_ERROR",
        TlsAlert::IllegalParameter => "ILLEGAL_PARAMETER",
        TlsAlert::Other(_) => "OTHER",
    }
}

} // verus!
