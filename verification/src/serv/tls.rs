//! The decisions behind the TLS extension that carries a token request: which
//! ClientHello is let on, and what becomes of the extension's data.

use vstd::prelude::*;

use crate::filter_box::base::FilterBox;
use crate::serv::filter::{StarFilter, StarFilterErrorStatus};
use crate::serv::tls_utils::{alert_for, alert_for_filter_error, TlsAlert};
use crate::star_core::token::be_u32_prefix;

verus! {

/// The TLS extension type that carries the token request.
pub const STAR_TLS_EXTENSION_TYPE: u16 = 65280;

/// Why a ClientHello was refused.
#[derive(Clone, Copy, PartialEq, Eq, Structural, Debug)]
pub enum HelloRejection {
    MissingCustomExtension,
    EmptyCustomExtension,
}

/// The data of the extension, when the ClientHello carries it.
pub open spec fn ext_view(ext_data: Option<&[u8]>) -> Option<Seq<u8>> {
    match ext_data {
        Some(d) => Some(d@),
        None => None,
    }
}

/// Whether a ClientHello carrying the extension data `ext` goes on: only
/// with some data; a refused one is answered with a decode error.
pub open spec fn hello_decision(ext: Option<Seq<u8>>) -> Result<(), (TlsAlert, HelloRejection)> {
    match ext {
        None => Err((TlsAlert::DecodeError, HelloRejection::MissingCustomExtension)),
        Some(d) => if d.len() == 0 {
            Err((TlsAlert::DecodeError, HelloRejection::EmptyCustomExtension))
        } else {
            Ok(())
        },
    }
}

/// A ClientHello goes on only when it carries the extension with some data;
/// a refused one is answered with a decode error.
pub fn client_hello_decision(ext_data: Option<&[u8]>) -> (r: Result<(), (TlsAlert, HelloRejection)>)
    ensures
        r == hello_decision(ext_view(ext_data)),
{
    match ext_data {
        None => Err((TlsAlert::DecodeError, HelloRejection::MissingCustomExtension)),
        Some(d) => {
            if d.len() == 0 {
                Err((TlsAlert::DecodeError, HelloRejection::EmptyCustomExtension))
            } else {
                Ok(())
            }
        },
    }
}

/// What to do with the extension's data when the handshake parses it.
#[derive(Clone, Copy, PartialEq, Eq, Structural, Debug)]
pub enum ExtensionStep {
    /// Refuse the handshake with this alert.
    Reject(TlsAlert),
    /// The same data was parsed and accepted before: accept it again.
    AcceptAgain,
    /// New data: have an enclave issue its token, then call
    /// `extension_verdict` with the answer.
    IssueToken,
}

fn same_bytes(a: &[u8], b: &[u8]) -> (r: bool)
    ensures
        r == (a@ == b@),
{
    if a.len() != b.len() {
        return false;
    }
    let mut k: usize = 0;
    while k < a.len()
        invariant
            a@.len() == b@.len(),
            0 <= k <= a@.len(),
            forall|j: int| 0 <= j < k ==> a@[j] == b@[j],
        decreases a@.len() - k,
    {
        if a[k] != b[k] {
            return false;
        }
        k = k + 1;
    }
    assert(a@ =~= b@);
    true
}

/// What the first look at the extension data `data` decides, with `existing`
/// the data already stored for the connection.
pub open spec fn precheck_step(existing: Option<Seq<u8>>, data: Seq<u8>) -> ExtensionStep {
    if data.len() == 0 {
        ExtensionStep::Reject(TlsAlert::DecodeError)
    } else {
        match existing {
            Some(e) => if e == data {
                ExtensionStep::AcceptAgain
            } else {
                ExtensionStep::Reject(TlsAlert::IllegalParameter)
            },
            None => ExtensionStep::IssueToken,
        }
    }
}

/// The first look at the extension's data: empty data is a decode error;
/// data already stored for this connection is accepted again when it is the
/// same and refused as an illegal parameter when it differs.
pub fn extension_precheck(existing: Option<&[u8]>, ext_data: &[u8]) -> (r: ExtensionStep)
    ensures
        r == precheck_step(ext_view(existing), ext_data@),
{
    if ext_data.len() == 0 {
        return ExtensionStep::Reject(TlsAlert::DecodeError);
    }
    match existing {
        Some(e) => {
            if same_bytes(e, ext_data) {
                ExtensionStep::AcceptAgain
            } else {
                ExtensionStep::Reject(TlsAlert::IllegalParameter)
            }
        },
        None => ExtensionStep::IssueToken,
    }
}

/// The token record of an enclave's answer, when it issued one.
pub open spec fn issued_record<X>(answer: Option<Result<Vec<u8>, X>>) -> Option<Seq<u8>> {
    match answer {
        Some(Ok(token_bytes)) => Some(token_bytes@),
        _ => None,
    }
}

/// The verdict `r` on new extension data for which an enclave issued
/// `record` (`None` when no enclave answered with one), by a server serving
/// `prefixes` of `prefix_max` routes whose filter goes from `before` to
/// `after`: a token is let through once, on a route served here, and
/// remembered; a refusal is answered with the alert of its kind and changes
/// nothing.
pub open spec fn token_verdict<T: FilterBox>(
    prefixes: Seq<u32>,
    prefix_max: u32,
    record: Option<Seq<u8>>,
    before: T,
    r: Result<(), TlsAlert>,
    after: T,
) -> bool {
    match record {
        Some(token_bytes) => {
            let served = prefixes.contains((be_u32_prefix(token_bytes) % (prefix_max as int)) as u32);
            let token = token_bytes.subrange(0, 32);
            &&& r is Ok ==> token_bytes.len() >= 32 && !before.tokens().contains(token) && served
                && after.tokens() == before.tokens().insert(token)
            &&& r is Err ==> after.tokens() == before.tokens()
            &&& token_bytes.len() < 32 ==> r == Err::<(), TlsAlert>(
                alert_for(StarFilterErrorStatus::InvalidToken),
            )
            &&& token_bytes.len() >= 32 && before.tokens().contains(token) ==> r == Err::<(), TlsAlert>(
                alert_for(StarFilterErrorStatus::DuplicatedToken),
            )
            &&& token_bytes.len() >= 32 ==> if !served {
                r == Err::<(), TlsAlert>(alert_for(StarFilterErrorStatus::InvalidRoute))
                    && after.tokens() == before.tokens()
            } else if !before.admits(token) {
                r == Err::<(), TlsAlert>(alert_for(StarFilterErrorStatus::DuplicatedToken))
                    && after.tokens() == before.tokens()
            } else {
                ||| r is Ok && after.tokens() == before.tokens().insert(token)
                ||| r == Err::<(), TlsAlert>(alert_for(StarFilterErrorStatus::Internal))
                    && after.tokens() == before.tokens()
            }
        },
        None => r == Err::<(), TlsAlert>(alert_for(StarFilterErrorStatus::Internal)) && after.tokens()
            == before.tokens(),
    }
}

/// The verdict on new extension data once an enclave answered (`None` when no
/// enclave could be had): the token is let through once, on a route served
/// here; a refusal is answered with the alert of its kind, and the data is to
/// be stored for the connection when it is let through.
pub fn extension_verdict<T: FilterBox, E, X>(
    filter: &mut StarFilter<T, E>,
    answer: Option<Result<Vec<u8>, X>>,
) -> (r: Result<(), TlsAlert>)
    requires
        old(filter).prefix_max > 0,
    ensures
        final(filter).prefixes == old(filter).prefixes,
        final(filter).prefix_max == old(filter).prefix_max,
        token_verdict(
            old(filter).prefixes@,
            old(filter).prefix_max,
            issued_record(answer),
            old(filter).filter,
            r,
            final(filter).filter,
        ),
{
    match filter.filter_answer(answer) {
        Ok(()) => Ok(()),
        Err(e) => Err(alert_for_filter_error(&e)),
    }
}

} // verus!
