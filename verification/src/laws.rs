//! What holds of the library across its operations: what one side of the
//! channel seals the other opens, which token a request earns, that a token
//! passes the filter at most once, and that the encodings read back what they
//! wrote.

use vstd::prelude::*;
use vstd::string::StringSliceAdditionalSpecFns;

use crate::ct::cmp::lex_lt;
use crate::ct::order::lemma_be_order;
use crate::ct::time::{be_bytes_u64, period_bytes, PERIOD_SECS};
use crate::star_core::client::token_request;
use crate::star_core::cred::{credential_bytes, credential_code, Credential};
use crate::star_core::enclave::token_response;
use crate::star_core::secure_channel::client::{reply_open, sealed_to};
use crate::star_core::secure_channel::server::{envelope_open, reply_carries, SecureChannelServer};
use crate::star_core::token::token_value;
use crate::client_auth::{auth_step, spent, used_in};
use crate::filter_box::base::FilterBox;
use crate::filter_box::dashmap_filter::DashMapFilterBox;
use crate::serv::filter::{dedup_step, duplication_outcome, token_and_route_of, StarFilterErrorStatus};
use crate::serv::runtime::{acquired, released, PermitState};
use crate::serv::tls::{hello_decision, precheck_step, token_verdict, ExtensionStep, HelloRejection};
use crate::serv::tls_utils::TlsAlert;
use crate::star_core::token::be_u32_prefix;
use crate::enclave_app::report_data_of;
use crate::tools::quote::{dcap_quote_decode, parsed_quote, policy_verdict, report_data_public_key};
use crate::tools::dcap::{is_advisory, TcbStatus};
use crate::enclave_app::policy_flag;
use crate::client_proxy::{cors_removed, emit_line, starts_with_lower};

verus! {

/// What a client seals to a receiver's public key, the receiver opens with its
/// secret key.
pub proof fn law_envelope_round_trip(server: SecureChannelServer, env: Seq<u8>, plaintext: Seq<u8>)
    requires
        server.wf(),
        sealed_to(server.pk@, env, plaintext),
    ensures
        envelope_open(server.sk@, env) == Some(plaintext),
{
    assert(server.sk@.len() == 32);
}

/// A reply that the receiver encrypted under a key decrypts, under that key,
/// to what it carries.
pub proof fn law_reply_round_trip(key: Seq<u8>, reply: Seq<u8>, response: Seq<u8>)
    requires
        reply_carries(key, reply, response),
    ensures
        reply_open(key, reply) == Some(response),
{
}

/// The answer to a token request `credential || count || period`: the token
/// `HMAC(uid, count || period)` exactly when the credential's code is the MAC
/// of its identifier under the enclave's key, the period is the current one
/// and the count is below the per-period limit; the single byte 0 otherwise.
/// So a credential earns at most `max` tokens in a period, and none for
/// another period.
pub proof fn law_token_for_request(
    sk: Seq<u8>,
    max: u64,
    cred: Credential,
    counter: u64,
    period: u64,
    current: u64,
)
    ensures
        token_response(
            sk,
            be_bytes_u64(max),
            token_request(cred, counter, period),
            be_bytes_u64(current),
        ) == (if cred.code@ == credential_code(sk, cred.uid@) && period == current && counter < max {
            token_value(cred.uid@, be_bytes_u64(period), be_bytes_u64(counter))
        } else {
            seq![0u8]
        }),
{
    let req = token_request(cred, counter, period);
    assert(req.subrange(0, 32) =~= cred.uid@);
    assert(req.subrange(32, 64) =~= cred.code@);
    assert(req.subrange(64, 72) =~= be_bytes_u64(counter));
    assert(req.subrange(72, 80) =~= be_bytes_u64(period));
    lemma_be_order(counter, max);
    lemma_be_injective(period, current);
}

/// Different numbers have different big-endian encodings.
pub proof fn lemma_be_injective(x: u64, y: u64)
    ensures
        be_bytes_u64(x) == be_bytes_u64(y) <==> x == y,
{
    lemma_be_order(x, y);
    lemma_be_order(y, x);
    if be_bytes_u64(x) == be_bytes_u64(y) && x != y {
        assert(x < y || y < x);
    }
}

/// A credential reads back from its encoding.
pub proof fn law_credential_bytes_round_trip(uid: Seq<u8>, code: Seq<u8>)
    requires
        uid.len() == 32,
        code.len() == 32,
    ensures
        credential_bytes(uid, code).len() == 64,
        credential_bytes(uid, code).subrange(0, 32) == uid,
        credential_bytes(uid, code).subrange(32, 64) == code,
{
    assert(credential_bytes(uid, code).subrange(0, 32) =~= uid);
    assert(credential_bytes(uid, code).subrange(32, 64) =~= code);
}

/// A credential that the client stores from the enclave's registration answer
/// is genuine: its code is the enclave's MAC of its identifier.
pub proof fn law_registered_credential_is_genuine(
    sk: Seq<u8>,
    key: Seq<u8>,
    reply: Seq<u8>,
    issued: Seq<u8>,
    stored: Credential,
)
    requires
        reply_carries(key, reply, issued),
        issued.len() == 64,
        issued.subrange(32, 64) == credential_code(sk, issued.subrange(0, 32)),
        reply_open(key, reply) matches Some(p) && stored.uid@ == p.subrange(0, 32) && stored.code@
            == p.subrange(32, 64),
    ensures
        stored.code@ == credential_code(sk, stored.uid@),
{
}

proof fn lemma_dedup_grows(
    states: Seq<Set<Seq<u8>>>,
    tokens: Seq<Seq<u8>>,
    admitted: Seq<bool>,
    i: int,
    j: int,
    t: Seq<u8>,
)
    requires
        states.len() == tokens.len() + 1,
        admitted.len() == tokens.len(),
        forall|k: int|
            #![trigger admitted[k]]
            0 <= k < tokens.len() ==> dedup_step(states[k], tokens[k], admitted[k], states[k + 1]),
        0 <= i <= j <= tokens.len(),
        states[i].contains(t),
    ensures
        states[j].contains(t),
    decreases j - i,
{
    if i < j {
        assert(dedup_step(states[i], tokens[i], admitted[i], states[i + 1]));
        lemma_dedup_grows(states, tokens, admitted, i + 1, j, t);
    }
}

/// Along any run of the duplicate filter, whatever the routes, errors and
/// order of the requests, no token is let through twice.
pub proof fn law_token_admitted_at_most_once(
    states: Seq<Set<Seq<u8>>>,
    tokens: Seq<Seq<u8>>,
    admitted: Seq<bool>,
    i: int,
    j: int,
)
    requires
        states.len() == tokens.len() + 1,
        admitted.len() == tokens.len(),
        forall|k: int|
            #![trigger admitted[k]]
            0 <= k < tokens.len() ==> dedup_step(states[k], tokens[k], admitted[k], states[k + 1]),
        0 <= i < j < tokens.len(),
        admitted[i],
        admitted[j],
    ensures
        tokens[i] != tokens[j],
{
    assert(states[i + 1].contains(tokens[i]));
    lemma_dedup_grows(states, tokens, admitted, i + 1, j, tokens[i]);
    assert(dedup_step(states[j], tokens[j], admitted[j], states[j + 1]));
}

/// With the exact filter, a token that was let through once is refused as a
/// duplicate when it is presented again on a served route, and a token the
/// filter has never held is let through unless the filter fails.
pub proof fn law_replay_is_duplicate(
    f0: DashMapFilterBox,
    f1: DashMapFilterBox,
    f2: DashMapFilterBox,
    token: Seq<u8>,
    served_first: bool,
    served_again: bool,
    r1: Result<(), StarFilterErrorStatus>,
    r2: Result<(), StarFilterErrorStatus>,
)
    requires
        duplication_outcome(served_first, f0, token, r1, f1),
        duplication_outcome(served_again, f1, token, r2, f2),
    ensures
        served_first && !f0.tokens().contains(token) ==> r1 == Ok::<(), StarFilterErrorStatus>(())
            || r1 == Err::<(), StarFilterErrorStatus>(StarFilterErrorStatus::Internal),
        r1 is Ok ==> f1.tokens().contains(token),
        r1 is Ok && served_again ==> r2 == Err::<(), StarFilterErrorStatus>(
            StarFilterErrorStatus::DuplicatedToken,
        ),
{
}

proof fn lemma_budget_grows(states: Seq<(u64, u64)>, period: u64, max: u64, i: int, j: int)
    requires
        forall|k: int|
            #![trigger states[k]]
            0 <= k < states.len() - 1 ==> auth_step(states[k], period, max, states[k + 1]),
        0 <= i < j < states.len(),
    ensures
        used_in(states[j].0, states[j].1, period) >= used_in(states[i].0, states[i].1, period)
            + (if spent(states[i], period, max) is Some { 1int } else { 0int }),
    decreases j - i,
{
    assert(auth_step(states[i], period, max, states[i + 1]));
    if i + 1 < j {
        lemma_budget_grows(states, period, max, i + 1, j);
    }
}

/// Along any run of token requests for one period, the request numbers spent
/// are strictly increasing and below the budget: a client sends at most `max`
/// requests per period, each with its own number.
pub proof fn law_budget_per_period(states: Seq<(u64, u64)>, period: u64, max: u64, i: int, j: int)
    requires
        forall|k: int|
            #![trigger states[k]]
            0 <= k < states.len() - 1 ==> auth_step(states[k], period, max, states[k + 1]),
        0 <= i < j < states.len(),
        spent(states[i], period, max) is Some,
        spent(states[j], period, max) is Some,
    ensures
        spent(states[i], period, max)->0 < spent(states[j], period, max)->0,
        spent(states[j], period, max)->0 < max,
{
    lemma_budget_grows(states, period, max, i, j);
}

/// The report data that binds a public key gives that key back.
pub proof fn law_report_data_round_trip(public_key: Seq<u8>)
    requires
        public_key.len() == 32,
    ensures
        report_data_public_key(report_data_of(public_key)) == Some(public_key),
{
    assert(report_data_of(public_key).subrange(0, 32) =~= public_key);
}

/// A key bundle reads back from its encoding: the first 32 bytes are the MAC
/// key and the next 32 the channel's secret key.
pub proof fn law_key_bundle_round_trip(enc_key: Seq<u8>, receiver_key: Seq<u8>)
    requires
        enc_key.len() == 32,
        receiver_key.len() == 32,
    ensures
        (enc_key + receiver_key).len() == 64,
        (enc_key + receiver_key).subrange(0, 32) == enc_key,
        (enc_key + receiver_key).subrange(32, 64) == receiver_key,
{
    assert((enc_key + receiver_key).subrange(0, 32) =~= enc_key);
    assert((enc_key + receiver_key).subrange(32, 64) =~= receiver_key);
}

/// The route a client predicts for its request (`User::route`) is the route
/// the filter gives the token that the enclave issues for that request in the
/// current period.
pub proof fn law_route_agrees(
    sk: Seq<u8>,
    max: u64,
    cred: Credential,
    counter: u64,
    period: u64,
    prefix_max: u32,
)
    requires
        cred.code@ == credential_code(sk, cred.uid@),
        counter < max,
        token_value(cred.uid@, be_bytes_u64(period), be_bytes_u64(counter)).len() == 32,
    ensures
        ({
            let t = token_value(cred.uid@, be_bytes_u64(period), be_bytes_u64(counter));
            token_and_route_of(
                token_response(sk, be_bytes_u64(max), token_request(cred, counter, period), be_bytes_u64(period)),
                prefix_max,
            ) == Ok::<(Seq<u8>, int), crate::serv::filter::StarFilterErrorStatus>(
                (t, be_u32_prefix(t) % (prefix_max as int)),
            )
        }),
{
    law_token_for_request(sk, max, cred, counter, period, period);
    let t = token_value(cred.uid@, be_bytes_u64(period), be_bytes_u64(counter));
    assert(t.subrange(0, 32) =~= t);
}

/// Giving back a permit that was taken leaves the pool of enclave calls as it
/// was, and wakes a waiter.
pub proof fn law_release_undoes_acquire(before: PermitState, taken: PermitState, woke: bool, after: PermitState)
    requires
        before.wf(),
        acquired(before, taken),
        released(taken, woke, after),
    ensures
        woke,
        after == before,
{
}

/// A later clock reading never falls in an earlier period: the period of
/// `a <= b` seconds is no later, and its big-endian bytes compare no greater.
pub proof fn law_period_monotone(a: u64, b: u64)
    requires
        a <= b,
    ensures
        a / PERIOD_SECS <= b / PERIOD_SECS,
        !lex_lt(period_bytes(b), period_bytes(a)),
{
    assert(a / PERIOD_SECS <= b / PERIOD_SECS) by (nonlinear_arith)
        requires
            a <= b,
            PERIOD_SECS > 0,
    ;
    lemma_be_order(b / PERIOD_SECS, a / PERIOD_SECS);
}

/// The number of leases still live after a run of pool events, each the
/// taking (`true`) or the dropping (`false`) of a lease.
pub open spec fn live_leases(events: Seq<bool>) -> int
    decreases events.len(),
{
    if events.len() == 0 {
        0
    } else {
        live_leases(events.drop_last()) + if events.last() {
            1int
        } else {
            -1int
        }
    }
}

/// One event of the enclave pool: a lease is taken from a free permit, or a
/// lease is dropped and its permit given back.
pub open spec fn pool_event(before: PermitState, take: bool, after: PermitState) -> bool {
    if take {
        before.available > 0 && acquired(before, after)
    } else {
        released(before, before.available < before.total, after)
    }
}

/// Along any run of the enclave pool from a fresh pool, where only live
/// leases are dropped, the free permits and the live leases add up to the
/// total: so at most the total of leases are live at once, and the free
/// permits stay between zero and the total.
pub proof fn law_leases_within_total(states: Seq<PermitState>, events: Seq<bool>, i: int)
    requires
        states.len() == events.len() + 1,
        states[0].available == states[0].total,
        forall|k: int|
            #![trigger events[k]]
            0 <= k < events.len() ==> pool_event(states[k], events[k], states[k + 1]),
        forall|k: int|
            #![trigger events[k]]
            0 <= k < events.len() && !events[k] ==> live_leases(events.subrange(0, k)) > 0,
        0 <= i < states.len(),
    ensures
        states[i].available + live_leases(events.subrange(0, i)) == states[i].total,
        0 <= live_leases(events.subrange(0, i)) <= states[i].total,
        states[i].wf(),
    decreases i,
{
    if i == 0 {
        assert(events.subrange(0, 0) =~= Seq::<bool>::empty());
    } else {
        law_leases_within_total(states, events, i - 1);
        let k = i - 1;
        assert(events.subrange(0, i).drop_last() =~= events.subrange(0, k));
        assert(events.subrange(0, i).last() == events[k]);
        assert(pool_event(states[k], events[k], states[k + 1]));
        if !events[k] {
            assert(live_leases(events.subrange(0, k)) > 0);
        }
    }
}

/// The STAR extension across a TLS handshake: a ClientHello without the
/// extension, or with empty data, is refused with a decode error, and one
/// with data goes on; within a connection, data already accepted is accepted
/// again without asking the filter, other data is refused as an illegal
/// parameter, and new data goes to the filter; and a token that the filter
/// let through once is refused as an illegal parameter when it comes again.
pub proof fn law_tls_token_extension<T: FilterBox>(
    ext: Option<Seq<u8>>,
    existing: Option<Seq<u8>>,
    prefixes: Seq<u32>,
    prefix_max: u32,
    record: Seq<u8>,
    f0: T,
    r1: Result<(), TlsAlert>,
    f1: T,
    r2: Result<(), TlsAlert>,
    f2: T,
)
    requires
        token_verdict(prefixes, prefix_max, Some(record), f0, r1, f1),
        token_verdict(prefixes, prefix_max, Some(record), f1, r2, f2),
    ensures
        ext is None ==> hello_decision(ext) == Err::<(), (TlsAlert, HelloRejection)>(
            (TlsAlert::DecodeError, HelloRejection::MissingCustomExtension),
        ),
        ext matches Some(x) && x.len() == 0 ==> hello_decision(ext) == Err::<
            (),
            (TlsAlert, HelloRejection),
        >((TlsAlert::DecodeError, HelloRejection::EmptyCustomExtension)),
        ext is Some && ext->0.len() > 0 ==> {
            let x = ext->0;
            &&& hello_decision(ext) is Ok
            &&& existing == Some(x) ==> precheck_step(existing, x) == ExtensionStep::AcceptAgain
            &&& (existing is Some && existing != Some(x)) ==> precheck_step(existing, x)
                == ExtensionStep::Reject(TlsAlert::IllegalParameter)
            &&& existing is None ==> precheck_step(existing, x) == ExtensionStep::IssueToken
        },
        r1 is Ok ==> r2 == Err::<(), TlsAlert>(TlsAlert::IllegalParameter) && f2.tokens()
            == f1.tokens(),
{
    if r1 is Ok {
        assert(f1.tokens().contains(record.subrange(0, 32)));
    }
}

/// The debug flag of a parsed quote is the SGX DEBUG attribute alone: bit 1
/// (value 2) of the first attribute byte. The other attribute bits, such as
/// INIT (1) and MODE64BIT (4), leave an enclave a production enclave, so a
/// production quote whose measurements are the trusted ones passes the policy
/// that refuses debug enclaves, and a debug one does not.
pub proof fn law_quote_debug_flag(quote: Seq<u8>)
    requires
        parsed_quote(quote) is Some,
    ensures
        dcap_quote_decode(quote) matches Some(d) && d.1 is Some,
        ({
            let d = dcap_quote_decode(quote)->Some_0;
            let report = d.1->Some_0;
            let a = report.3[0];
            let p = parsed_quote(quote)->Some_0;
            &&& p.3 <==> a % 4 >= 2
            &&& a == 5 ==> !p.3
            &&& a == 1 ==> !p.3
            &&& a == 7 ==> p.3
            &&& policy_verdict(p.0, p.1, p.3, p.1, Some(p.0), false) is None <==> a % 4 < 2
        }),
{
    let d = dcap_quote_decode(quote)->Some_0;
    let report = d.1->Some_0;
    let a = report.3[0];
    assert(((a & 2u8) != 0u8) <==> a % 4 >= 2) by (bit_vector);
}

/// Which DCAP statuses are accepted: with advisories allowed, every status
/// but a revoked platform and the TD relaunch advisories (so configuration,
/// software-hardening and out-of-date advisories pass); without them, only
/// an up-to-date platform; and what passes without advisories passes with
/// them.
pub proof fn law_dcap_acceptance(status: TcbStatus)
    ensures
        (status == TcbStatus::UpToDate || (true && is_advisory(status))) <==> !(status
            == TcbStatus::Revoked || status == TcbStatus::TDRelaunchAdvised || status
            == TcbStatus::TDRelaunchAdvisedConfigurationNeeded),
        (status == TcbStatus::UpToDate || (false && is_advisory(status))) <==> status
            == TcbStatus::UpToDate,
        is_advisory(status) ==> status != TcbStatus::UpToDate,
{
}

/// The spellings of an embedded policy setting: "1", "true", "TRUE", "yes"
/// and "YES" read as true, "0", "false", "FALSE", "no" and "NO" as false,
/// whatever the default; an unset setting reads as the default, and a set one
/// does not depend on it.
pub proof fn law_policy_spellings(d: bool, v: Seq<char>)
    ensures
        policy_flag(None, d) == Some(d),
        policy_flag(Some("1"@), d) == Some(true),
        policy_flag(Some("true"@), d) == Some(true),
        policy_flag(Some("TRUE"@), d) == Some(true),
        policy_flag(Some("yes"@), d) == Some(true),
        policy_flag(Some("YES"@), d) == Some(true),
        policy_flag(Some("0"@), d) == Some(false),
        policy_flag(Some("false"@), d) == Some(false),
        policy_flag(Some("FALSE"@), d) == Some(false),
        policy_flag(Some("no"@), d) == Some(false),
        policy_flag(Some("NO"@), d) == Some(false),
        policy_flag(Some(v), d) == policy_flag(Some(v), !d),
{
    reveal_strlit("1");
    reveal_strlit("true");
    reveal_strlit("TRUE");
    reveal_strlit("yes");
    reveal_strlit("YES");
    reveal_strlit("0");
    reveal_strlit("false");
    reveal_strlit("FALSE");
    reveal_strlit("no");
    reveal_strlit("NO");
    assert("0"@[0] != "1"@[0]);
    assert("false"@.len() != "1"@.len() && "false"@.len() != "true"@.len() && "false"@.len()
        != "TRUE"@.len() && "false"@.len() != "yes"@.len() && "false"@.len() != "YES"@.len());
    assert("0"@.len() != "true"@.len() && "0"@.len() != "TRUE"@.len() && "0"@.len() != "yes"@.len()
        && "0"@.len() != "YES"@.len());
}

/// The upstream's connection and CORS headers do not survive
/// `add_cors_headers`: a header line (any but the status line) that starts,
/// in any letter case, with one of these names is taken out of the head.
pub proof fn law_cors_headers_replaced(line: Seq<u8>)
    ensures
        starts_with_lower(line, "connection:".spec_bytes()) ==> emit_line(line, cors_removed(), false)
            == Seq::<u8>::empty(),
        starts_with_lower(line, "proxy-connection:".spec_bytes()) ==> emit_line(
            line,
            cors_removed(),
            false,
        ) == Seq::<u8>::empty(),
        starts_with_lower(line, "keep-alive:".spec_bytes()) ==> emit_line(line, cors_removed(), false)
            == Seq::<u8>::empty(),
        starts_with_lower(line, "access-control-allow-origin:".spec_bytes()) ==> emit_line(
            line,
            cors_removed(),
            false,
        ) == Seq::<u8>::empty(),
        starts_with_lower(line, "access-control-allow-methods:".spec_bytes()) ==> emit_line(
            line,
            cors_removed(),
            false,
        ) == Seq::<u8>::empty(),
        starts_with_lower(line, "access-control-allow-headers:".spec_bytes()) ==> emit_line(
            line,
            cors_removed(),
            false,
        ) == Seq::<u8>::empty(),
        starts_with_lower(line, "access-control-allow-credentials:".spec_bytes()) ==> emit_line(
            line,
            cors_removed(),
            false,
        ) == Seq::<u8>::empty(),
        starts_with_lower(line, "access-control-expose-headers:".spec_bytes()) ==> emit_line(
            line,
            cors_removed(),
            false,
        ) == Seq::<u8>::empty(),
        starts_with_lower(line, "access-control-max-age:".spec_bytes()) ==> emit_line(
            line,
            cors_removed(),
            false,
        ) == Seq::<u8>::empty(),
{
    let names = cors_removed();
    assert(names[0] == "connection:".spec_bytes());
    assert(names[1] == "proxy-connection:".spec_bytes());
    assert(names[2] == "keep-alive:".spec_bytes());
    assert(names[3] == "access-control-allow-origin:".spec_bytes());
    assert(names[4] == "access-control-allow-methods:".spec_bytes());
    assert(names[5] == "access-control-allow-headers:".spec_bytes());
    assert(names[6] == "access-control-allow-credentials:".spec_bytes());
    assert(names[7] == "access-control-expose-headers:".spec_bytes());
    assert(names[8] == "access-control-max-age:".spec_bytes());
}

} // verus!
